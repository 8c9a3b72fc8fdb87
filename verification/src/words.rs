//! Cutting text into pieces: trimming, words, lines, and putting them together.

use vstd::prelude::*;
use crate::chars;
use crate::chars::{is_alphanumeric, is_whitespace, push_str};

verus! {

/// A set of characters to trim away or to cut at.
#[derive(Clone, Copy)]
pub enum Class {
    /// Unicode white space.
    Whitespace,
    /// The straight double quote.
    Quote,
    /// Anything that is neither a letter, a number nor an apostrophe.
    NonWord,
}

impl Class {
    /// Whether a character belongs to the class.
    pub open spec fn has(self, c: char) -> bool {
        match self {
            Class::Whitespace => chars::whitespace(c),
            Class::Quote => c == '"',
            Class::NonWord => !chars::alphanumeric(c) && c != '\'',
        }
    }

    /// Whether a character belongs to the class.
    pub fn contains(self, c: char) -> (r: bool)
        ensures
            r == self.has(c),
    {
        match self {
            Class::Whitespace => is_whitespace(c),
            Class::Quote => c == '"',
            Class::NonWord => !is_alphanumeric(c) && c != '\'',
        }
    }
}

/// Text without the leading characters of a class.
pub open spec fn trim_left(s: Seq<char>, class: Class) -> Seq<char>
    decreases s.len(),
{
    if s.len() > 0 && class.has(s[0]) {
        trim_left(s.drop_first(), class)
    } else {
        s
    }
}

/// Text without the trailing characters of a class.
pub open spec fn trim_right(s: Seq<char>, class: Class) -> Seq<char>
    decreases s.len(),
{
    if s.len() > 0 && class.has(s.last()) {
        trim_right(s.drop_last(), class)
    } else {
        s
    }
}

/// Text without the leading and trailing characters of a class.
pub open spec fn trim_class(s: Seq<char>, class: Class) -> Seq<char> {
    trim_right(trim_left(s, class), class)
}

/// Text without the white space around it.
pub open spec fn trim(s: Seq<char>) -> Seq<char> {
    trim_class(s, Class::Whitespace)
}

/// Where the first character of a class stands, or the length if there is none.
pub open spec fn first_of(s: Seq<char>, class: Class) -> nat
    decreases s.len(),
{
    if s.len() == 0 || class.has(s[0]) {
        0
    } else {
        1 + first_of(s.drop_first(), class)
    }
}

/// Where the first occurrence of a character stands, or the length if there is
/// none.
pub open spec fn index_of(s: Seq<char>, c: char) -> nat
    decreases s.len(),
{
    if s.len() == 0 || s[0] == c {
        0
    } else {
        1 + index_of(s.drop_first(), c)
    }
}

pub proof fn lemma_first_of(s: Seq<char>, class: Class)
    ensures
        first_of(s, class) <= s.len(),
        first_of(s, class) < s.len() ==> class.has(s[first_of(s, class) as int]),
        forall|i: int| 0 <= i < first_of(s, class) ==> !class.has(#[trigger] s[i]),
    decreases s.len(),
{
    if s.len() > 0 && !class.has(s[0]) {
        lemma_first_of(s.drop_first(), class);
        assert forall|i: int| 0 <= i < first_of(s, class) implies !class.has(#[trigger] s[i]) by {
            if i > 0 {
                assert(s.drop_first()[i - 1] == s[i]);
            }
        }
    }
}

pub proof fn lemma_first_of_is(s: Seq<char>, class: Class, n: int)
    requires
        0 <= n <= s.len(),
        n < s.len() ==> class.has(s[n]),
        forall|i: int| 0 <= i < n ==> !class.has(#[trigger] s[i]),
    ensures
        first_of(s, class) == n,
{
    lemma_first_of(s, class);
    let k = first_of(s, class) as int;
    if k < n {
        assert(!class.has(s[k]));
    } else if n < k {
        assert(!class.has(s[n]));
    }
}

pub proof fn lemma_index_of(s: Seq<char>, c: char)
    ensures
        index_of(s, c) <= s.len(),
        index_of(s, c) < s.len() ==> s[index_of(s, c) as int] == c,
        forall|i: int| 0 <= i < index_of(s, c) ==> #[trigger] s[i] != c,
    decreases s.len(),
{
    if s.len() > 0 && s[0] != c {
        lemma_index_of(s.drop_first(), c);
        assert forall|i: int| 0 <= i < index_of(s, c) implies #[trigger] s[i] != c by {
            if i > 0 {
                assert(s.drop_first()[i - 1] == s[i]);
            }
        }
    }
}

pub proof fn lemma_index_of_is(s: Seq<char>, c: char, n: int)
    requires
        0 <= n <= s.len(),
        n < s.len() ==> s[n] == c,
        forall|i: int| 0 <= i < n ==> #[trigger] s[i] != c,
    ensures
        index_of(s, c) == n,
{
    lemma_index_of(s, c);
    let k = index_of(s, c) as int;
    if k < n {
        assert(s[k] != c);
    } else if n < k {
        assert(s[n] != c);
    }
}

proof fn lemma_trim_left(s: Seq<char>, class: Class, n: int)
    requires
        0 <= n <= s.len(),
        n < s.len() ==> !class.has(s[n]),
        forall|i: int| 0 <= i < n ==> class.has(#[trigger] s[i]),
    ensures
        trim_left(s, class) == s.skip(n),
    decreases n,
{
    if n > 0 {
        assert(class.has(s[0]));
        assert(s.drop_first().skip(n - 1) =~= s.skip(n));
        assert forall|i: int| 0 <= i < n - 1 implies class.has(#[trigger] s.drop_first()[i]) by {
            assert(class.has(s[i + 1]));
        }
        lemma_trim_left(s.drop_first(), class, n - 1);
    } else {
        assert(s.skip(0) =~= s);
    }
}

proof fn lemma_trim_right(s: Seq<char>, class: Class, n: int)
    requires
        0 <= n <= s.len(),
        0 < n ==> !class.has(s[n - 1]),
        forall|i: int| n <= i < s.len() ==> class.has(#[trigger] s[i]),
    ensures
        trim_right(s, class) == s.take(n),
    decreases s.len() - n,
{
    if n < s.len() {
        assert(class.has(s[s.len() - 1]));
        assert(s.drop_last().take(n) =~= s.take(n));
        lemma_trim_right(s.drop_last(), class, n);
    } else {
        assert(s.take(n) =~= s);
    }
}

/// The text `chars` without the leading and trailing characters of a class.
pub fn trim_chars(chars: &[char], class: Class) -> (out: Vec<char>)
    ensures
        out@ == trim_class(chars@, class),
{
    let mut a: usize = 0;
    while a < chars.len() && class.contains(chars[a])
        invariant
            a <= chars@.len(),
            forall|i: int| 0 <= i < a ==> class.has(#[trigger] chars@[i]),
        decreases chars@.len() - a,
    {
        a += 1;
    }
    proof {
        lemma_trim_left(chars@, class, a as int);
    }
    let mut b: usize = chars.len();
    while b > a && class.contains(chars[b - 1])
        invariant
            a <= b <= chars@.len(),
            forall|i: int| b <= i < chars@.len() ==> class.has(#[trigger] chars@[i]),
        decreases b,
    {
        b -= 1;
    }
    proof {
        let t = chars@.skip(a as int);
        assert forall|i: int| b - a <= i < t.len() implies class.has(#[trigger] t[i]) by {
            assert(class.has(chars@[i + a]));
        }
        lemma_trim_right(t, class, b - a);
        assert(t.take(b - a) =~= chars@.subrange(a as int, b as int));
    }
    copy_range(chars, a, b)
}

/// The characters from `a` up to `b`.
pub fn copy_range(chars: &[char], a: usize, b: usize) -> (out: Vec<char>)
    requires
        a <= b <= chars@.len(),
    ensures
        out@ == chars@.subrange(a as int, b as int),
{
    let mut out: Vec<char> = Vec::new();
    let mut i: usize = a;
    while i < b
        invariant
            a <= i <= b <= chars@.len(),
            out@ == chars@.subrange(a as int, i as int),
        decreases b - i,
    {
        out.push(chars[i]);
        proof {
            assert(chars@.subrange(a as int, i + 1) =~= chars@.subrange(a as int, i as int).push(
                chars@[i as int],
            ));
        }
        i += 1;
    }
    out
}

/// The views of a list of character runs.
pub open spec fn runs(v: Seq<Vec<char>>) -> Seq<Seq<char>> {
    v.map_values(|w: Vec<char>| w@)
}

/// The words of a text: its longest runs without white space, in order.
pub open spec fn words(s: Seq<char>) -> Seq<Seq<char>>
    decreases s.len(),
{
    if s.len() == 0 {
        seq![]
    } else if chars::whitespace(s[0]) {
        words(s.drop_first())
    } else {
        let n = first_of(s, Class::Whitespace) as int;
        if 0 < n <= s.len() {
            seq![s.take(n)] + words(s.skip(n))
        } else {
            seq![]
        }
    }
}

/// The words of a text.
pub fn split_words(chars: &[char]) -> (out: Vec<Vec<char>>)
    ensures
        runs(out@) == words(chars@),
{
    let mut out: Vec<Vec<char>> = Vec::new();
    let mut i: usize = 0;
    proof {
        assert(chars@.skip(0) =~= chars@);
        assert(runs(out@) + words(chars@) =~= words(chars@));
    }
    while i < chars.len()
        invariant
            i <= chars@.len(),
            runs(out@) + words(chars@.skip(i as int)) == words(chars@),
        decreases chars@.len() - i,
    {
        let ghost rest = chars@.skip(i as int);
        if is_whitespace(chars[i]) {
            proof {
                assert(rest.drop_first() =~= chars@.skip(i + 1));
            }
            i += 1;
        } else {
            let a: usize = i;
            while i < chars.len() && !is_whitespace(chars[i])
                invariant
                    a <= i <= chars@.len(),
                    forall|k: int| a <= k < i ==> !chars::whitespace(#[trigger] chars@[k]),
                decreases chars@.len() - i,
            {
                i += 1;
            }
            let w: Vec<char> = copy_range(chars, a, i);
            proof {
                lemma_first_of_is(rest, Class::Whitespace, i - a);
                assert(rest.take(i - a) =~= chars@.subrange(a as int, i as int));
                assert(rest.skip(i - a) =~= chars@.skip(i as int));
                assert(words(rest) == seq![w@] + words(chars@.skip(i as int)));
                assert(runs(out@.push(w)) =~= runs(out@).push(w@));
                assert(runs(out@) + (seq![w@] + words(chars@.skip(i as int))) =~= runs(
                    out@.push(w),
                ) + words(chars@.skip(i as int)));
            }
            out.push(w);
        }
    }
    proof {
        assert(chars@.skip(i as int) =~= seq![]);
        assert(runs(out@) + words(chars@.skip(i as int)) =~= runs(out@));
    }
    out
}

/// Pieces with a separator between each two.
pub open spec fn joined(pieces: Seq<Seq<char>>, sep: Seq<char>) -> Seq<char>
    decreases pieces.len(),
{
    if pieces.len() == 0 {
        seq![]
    } else if pieces.len() == 1 {
        pieces[0]
    } else {
        joined(pieces.drop_last(), sep) + sep + pieces.last()
    }
}

/// Strings with a separator between each two.
pub fn join_texts(pieces: &[String], sep: &str) -> (out: String)
    ensures
        out@ == joined(chars::texts(pieces@), sep@),
{
    let mut out: String = String::new();
    let mut i: usize = 0;
    let ghost all = chars::texts(pieces@);
    while i < pieces.len()
        invariant
            i <= pieces@.len(),
            all == chars::texts(pieces@),
            out@ == joined(all.take(i as int), sep@),
        decreases pieces@.len() - i,
    {
        let ghost before = all.take(i as int);
        proof {
            assert(all.take(i + 1).drop_last() =~= before);
            assert(all.take(i + 1).last() == pieces@[i as int]@);
        }
        if i > 0 {
            push_str(&mut out, sep);
        } else {
            assert(out@ =~= seq![]);
        }
        push_str(&mut out, pieces[i].as_str());
        proof {
            if i == 0 {
                assert(out@ =~= all.take(1)[0]);
            }
        }
        i += 1;
    }
    proof {
        assert(all.take(i as int) =~= all);
    }
    out
}

/// The lines of a text. A line ends at a line feed; a carriage return directly
/// before it belongs to the ending. The last line need not be ended.
pub open spec fn lines(s: Seq<char>) -> Seq<Seq<char>>
    decreases s.len(),
{
    let n = index_of(s, '\n') as int;
    if s.len() == 0 {
        seq![]
    } else if 0 <= n < s.len() {
        seq![without_return(s.take(n))] + lines(s.skip(n + 1))
    } else {
        seq![s]
    }
}

/// A line without the one carriage return at its end, where it has one.
pub open spec fn without_return(line: Seq<char>) -> Seq<char> {
    if line.len() > 0 && line.last() == '\r' {
        line.drop_last()
    } else {
        line
    }
}

/// The lines of a text.
pub fn split_lines(chars: &[char]) -> (out: Vec<Vec<char>>)
    ensures
        runs(out@) == lines(chars@),
{
    let mut out: Vec<Vec<char>> = Vec::new();
    let mut i: usize = 0;
    proof {
        assert(chars@.skip(0) =~= chars@);
        assert(runs(out@) + lines(chars@) =~= lines(chars@));
    }
    while i < chars.len()
        invariant
            i <= chars@.len(),
            runs(out@) + lines(chars@.skip(i as int)) == lines(chars@),
        decreases chars@.len() - i,
    {
        let ghost rest = chars@.skip(i as int);
        let a: usize = i;
        while i < chars.len() && chars[i] != '\n'
            invariant
                a <= i <= chars@.len(),
                forall|k: int| a <= k < i ==> #[trigger] chars@[k] != '\n',
            decreases chars@.len() - i,
        {
            i += 1;
        }
        proof {
            lemma_index_of_is(rest, '\n', i - a);
        }
        let ended: bool = i < chars.len();
        let b: usize = if ended && i > a && chars[i - 1] == '\r' {
            i - 1
        } else {
            i
        };
        let w: Vec<char> = copy_range(chars, a, b);
        if ended {
            i += 1;
        }
        proof {
            if ended {
                assert(rest.take(i - 1 - a) =~= chars@.subrange(a as int, i - 1));
                assert(without_return(rest.take(i - 1 - a)) =~= w@);
                assert(rest.skip(i - a) =~= chars@.skip(i as int));
                assert(lines(rest) == seq![w@] + lines(chars@.skip(i as int)));
            } else {
                assert(rest =~= w@);
                assert(chars@.skip(i as int) =~= seq![]);
                assert(lines(rest) =~= seq![w@] + lines(chars@.skip(i as int)));
            }
            assert(runs(out@.push(w)) =~= runs(out@).push(w@));
            assert(runs(out@) + (seq![w@] + lines(chars@.skip(i as int))) =~= runs(out@.push(w))
                + lines(chars@.skip(i as int)));
        }
        out.push(w);
    }
    proof {
        assert(chars@.skip(i as int) =~= seq![]);
        assert(runs(out@) + lines(chars@.skip(i as int)) =~= runs(out@));
    }
    out
}

} // verus!
