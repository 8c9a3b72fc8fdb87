//! What trimming, cutting into words and joining do to any text.

use vstd::prelude::*;
use crate::chars;
use crate::words;
use crate::words::Class;

verus! {

/// A text is made of white space only.
pub open spec fn all_space(s: Seq<char>) -> bool {
    forall|i: int| 0 <= i < s.len() ==> chars::whitespace(#[trigger] s[i])
}

/// A text holds no white space.
pub open spec fn no_space(s: Seq<char>) -> bool {
    forall|i: int| 0 <= i < s.len() ==> !chars::whitespace(#[trigger] s[i])
}

/// Lists of words, or of anything, one behind the other.
pub open spec fn chained<A>(parts: Seq<Seq<A>>) -> Seq<A>
    decreases parts.len(),
{
    if parts.len() == 0 {
        seq![]
    } else {
        chained(parts.drop_last()) + parts.last()
    }
}

// ---- characters -----------------------------------------------------------------------

/// Of the characters of ASCII the six that move the pen are white space, the 52 letters
/// are letters, and the letters and the ten digits are words.
pub proof fn law_ascii_classes(c: char)
    requires
        c <= '\x7F',
    ensures
        chars::whitespace(c) <==> c == ' ' || c == '\t' || c == '\n' || c == '\x0B' || c == '\x0C'
            || c == '\r',
        chars::alphabetic(c) <==> ('a' <= c && c <= 'z') || ('A' <= c && c <= 'Z'),
        chars::alphanumeric(c) <==> ('a' <= c && c <= 'z') || ('A' <= c && c <= 'Z') || ('0' <= c
            && c <= '9'),
{
}

/// What is not in ASCII is classified by the tables of Unicode. Its white space is none of
/// what the recogniser writes in the middle of a word: it is one of nineteen blanks.
pub proof fn law_other_classes(c: char)
    requires
        c > '\x7F',
    ensures
        chars::alphabetic(c) == chars::unicode_alphabetic(c),
        chars::alphanumeric(c) == chars::unicode_alphanumeric(c),
        chars::whitespace(c) <==> c == '\u{85}' || c == '\u{A0}' || c == '\u{1680}' || (
        '\u{2000}' <= c && c <= '\u{200A}') || c == '\u{2028}' || c == '\u{2029}' || c
            == '\u{202F}' || c == '\u{205F}' || c == '\u{3000}',
{
}

/// In ASCII, lower case turns each capital into its small letter and keeps the rest; upper
/// case turns a small letter into its capital. Elsewhere the tables of Unicode decide.
pub proof fn law_cases(s: Seq<char>, i: int, c: char)
    requires
        0 <= i < s.len(),
    ensures
        vstd::utf8::is_ascii_chars(s) ==> {
            &&& chars::lower(s).len() == s.len()
            &&& 'A' <= s[i] && s[i] <= 'Z' ==> chars::lower(s)[i] as int == s[i] as int + 32
            &&& !('A' <= s[i] && s[i] <= 'Z') ==> chars::lower(s)[i] == s[i]
        },
        !vstd::utf8::is_ascii_chars(s) ==> chars::lower(s) == chars::unicode_lower(s),
        'a' <= c && c <= 'z' ==> chars::upper(c).len() == 1 && chars::upper(c)[0] as int == c as int
            - 32,
        c <= '\x7F' && !('a' <= c && c <= 'z') ==> chars::upper(c) == seq![c],
        c > '\x7F' ==> chars::upper(c) == chars::unicode_upper(c),
{
}

/// What ends a sentence is no letter.
pub proof fn lemma_enders_are_no_letters(c: char)
    ensures
        c == '.' || c == '!' || c == '?' || c == '\n' ==> !chars::alphabetic(c),
{
}

// ---- trimming -------------------------------------------------------------------------

proof fn lemma_trim_left_parts(s: Seq<char>, class: Class) -> (n: int)
    ensures
        0 <= n <= s.len(),
        words::trim_left(s, class) == s.skip(n),
        forall|i: int| 0 <= i < n ==> class.has(#[trigger] s[i]),
        n < s.len() ==> !class.has(s[n]),
    decreases s.len(),
{
    if s.len() > 0 && class.has(s[0]) {
        let rest = s.drop_first();
        let m = lemma_trim_left_parts(rest, class);
        assert(rest.skip(m) =~= s.skip(m + 1));
        assert forall|i: int| 0 <= i < m + 1 implies class.has(#[trigger] s[i]) by {
            if i > 0 {
                assert(rest[i - 1] == s[i]);
            }
        }
        if m < rest.len() {
            assert(rest[m] == s[m + 1]);
        }
        m + 1
    } else {
        assert(s.skip(0) =~= s);
        0
    }
}

proof fn lemma_trim_right_parts(s: Seq<char>, class: Class) -> (n: int)
    ensures
        0 <= n <= s.len(),
        words::trim_right(s, class) == s.take(n),
        forall|i: int| n <= i < s.len() ==> class.has(#[trigger] s[i]),
        0 < n ==> !class.has(s[n - 1]),
    decreases s.len(),
{
    if s.len() > 0 && class.has(s.last()) {
        let rest = s.drop_last();
        let m = lemma_trim_right_parts(rest, class);
        assert(rest.take(m) =~= s.take(m));
        assert forall|i: int| m <= i < s.len() implies class.has(#[trigger] s[i]) by {
            if i < rest.len() {
                assert(rest[i] == s[i]);
            }
        }
        m
    } else {
        assert(s.take(s.len() as int) =~= s);
        s.len() as int
    }
}

/// Where trimming cuts: between `a` and `b`, with nothing but the class outside and
/// nothing of it at the ends within.
pub proof fn lemma_trim_parts(s: Seq<char>, class: Class) -> (r: (int, int))
    ensures
        0 <= r.0 <= r.1 <= s.len(),
        words::trim_class(s, class) == s.subrange(r.0, r.1),
        forall|i: int| 0 <= i < r.0 || r.1 <= i < s.len() ==> class.has(#[trigger] s[i]),
        r.0 < r.1 ==> !class.has(s[r.0]) && !class.has(s[r.1 - 1]),
{
    let a = lemma_trim_left_parts(s, class);
    let t = s.skip(a);
    let m = lemma_trim_right_parts(t, class);
    assert(t.take(m) =~= s.subrange(a, a + m));
    assert forall|i: int| 0 <= i < a || a + m <= i < s.len() implies class.has(#[trigger] s[i]) by {
        if i >= a + m {
            assert(t[i - a] == s[i]);
        }
    }
    if m > 0 {
        assert(t[m - 1] == s[a + m - 1]);
        if class.has(t[0]) {
            assert(t[0] == s[a]);
        }
    }
    (a, a + m)
}

/// Trimming takes white space off both ends and nothing else: any text with white space
/// around it trims to the same, and a text with none at its ends stays as it is.
pub proof fn law_trimming(before: Seq<char>, s: Seq<char>, after: Seq<char>)
    requires
        all_space(before),
        all_space(after),
        s.len() > 0 ==> !chars::whitespace(s[0]) && !chars::whitespace(s.last()),
    ensures
        words::trim(before + s + after) == s,
{
    let all = before + s + after;
    let r = lemma_trim_parts(all, Class::Whitespace);
    if s.len() > 0 {
        let a = before.len() as int;
        let b = a + s.len();
        assert(all[a] == s[0]);
        assert(all[b - 1] == s.last());
        if r.0 > a {
            assert(Class::Whitespace.has(all[a]));
        }
        if r.0 < a {
            assert(all[r.0] == before[r.0]);
        }
        if r.1 < b {
            assert(Class::Whitespace.has(all[b - 1]));
        }
        if r.1 > b {
            assert(all[r.1 - 1] == after[r.1 - 1 - b]);
        }
        assert(all.subrange(a, b) =~= s);
    } else {
        if r.0 < r.1 {
            if r.0 < before.len() {
                assert(all[r.0] == before[r.0]);
            } else {
                assert(all[r.0] == after[r.0 - before.len()]);
            }
        }
        assert(all.subrange(r.0, r.1) =~= s);
    }
}

// ---- words ----------------------------------------------------------------------------

/// A text without white space is one word, and nothing has no words.
pub proof fn law_one_word(w: Seq<char>)
    requires
        no_space(w),
    ensures
        words::words(w) == if w.len() > 0 {
            seq![w]
        } else {
            seq![]
        },
{
    if w.len() > 0 {
        assert forall|i: int| 0 <= i < w.len() implies !Class::Whitespace.has(#[trigger] w[i]) by {
            assert(!chars::whitespace(w[i]));
        }
        words::lemma_first_of_is(w, Class::Whitespace, w.len() as int);
        assert(!chars::whitespace(w[0]));
        assert(w.take(w.len() as int) =~= w);
        assert(w.skip(w.len() as int) =~= seq![]);
        assert(words::words(w.skip(w.len() as int)) =~= seq![]);
        assert(words::words(w) =~= seq![w]);
    }
}

/// White space parts words: the words of a text are those before it and those after.
pub proof fn law_white_space_parts_words(a: Seq<char>, g: char, b: Seq<char>)
    requires
        chars::whitespace(g),
    ensures
        words::words(a.push(g) + b) == words::words(a) + words::words(b),
    decreases a.len(),
{
    let all = a.push(g) + b;
    if a.len() == 0 {
        assert(all[0] == g);
        assert(all.drop_first() =~= b);
        assert(words::words(a) + words::words(b) =~= words::words(b));
    } else {
        assert(all[0] == a[0]);
        if chars::whitespace(a[0]) {
            assert(all.drop_first() =~= a.drop_first().push(g) + b);
            law_white_space_parts_words(a.drop_first(), g, b);
        } else {
            words::lemma_first_of(a, Class::Whitespace);
            let n = words::first_of(a, Class::Whitespace) as int;
            assert(n > 0) by {
                if n == 0 {
                    assert(Class::Whitespace.has(a[0]));
                }
            }
            assert forall|i: int| 0 <= i < n implies !Class::Whitespace.has(#[trigger] all[i]) by {
                assert(all[i] == a[i]);
            }
            if n < a.len() {
                assert(all[n] == a[n]);
            } else {
                assert(all[n] == g);
            }
            words::lemma_first_of_is(all, Class::Whitespace, n);
            assert(all.take(n) =~= a.take(n));
            assert(all.skip(n) =~= a.skip(n).push(g) + b);
            law_white_space_parts_words(a.skip(n), g, b);
            assert(words::words(all) =~= words::words(a) + words::words(b));
        }
    }
}

/// White space at the ends holds no words.
pub proof fn lemma_words_of_trimmed(s: Seq<char>)
    ensures
        words::words(words::trim(s)) == words::words(s),
{
    let r = lemma_trim_parts(s, Class::Whitespace);
    lemma_words_in_space(s.take(r.0), s.subrange(r.0, r.1), s.skip(r.1));
    assert(s.take(r.0) + s.subrange(r.0, r.1) + s.skip(r.1) =~= s);
}

proof fn lemma_words_in_space(before: Seq<char>, s: Seq<char>, after: Seq<char>)
    requires
        forall|i: int| 0 <= i < before.len() ==> Class::Whitespace.has(#[trigger] before[i]),
        forall|i: int| 0 <= i < after.len() ==> Class::Whitespace.has(#[trigger] after[i]),
    ensures
        words::words(before + s + after) == words::words(s),
    decreases before.len() + after.len(),
{
    let all = before + s + after;
    if before.len() > 0 {
        let rest = before.drop_first();
        assert forall|i: int| 0 <= i < rest.len() implies Class::Whitespace.has(
            #[trigger] rest[i],
        ) by {
            assert(rest[i] == before[i + 1]);
        }
        lemma_words_in_space(rest, s, after);
        assert(all[0] == before[0]);
        assert(all.drop_first() =~= rest + s + after);
    } else if after.len() > 0 {
        let rest = after.drop_last();
        assert forall|i: int| 0 <= i < rest.len() implies Class::Whitespace.has(
            #[trigger] rest[i],
        ) by {
            assert(rest[i] == after[i]);
        }
        lemma_words_in_space(before, s, rest);
        let head = before + s + rest;
        let g = after.last();
        assert(after[after.len() - 1] == g);
        law_white_space_parts_words(head, g, seq![]);
        assert(head.push(g) + Seq::<char>::empty() =~= all);
        assert(words::words(head) + words::words(Seq::<char>::empty()) =~= words::words(head));
    } else {
        assert(all =~= s);
    }
}

/// No word is empty or holds white space.
pub proof fn law_words_are_solid(s: Seq<char>, i: int)
    requires
        0 <= i < words::words(s).len(),
    ensures
        words::words(s)[i].len() > 0,
        no_space(words::words(s)[i]),
    decreases s.len(),
{
    if s.len() > 0 {
        if chars::whitespace(s[0]) {
            law_words_are_solid(s.drop_first(), i);
        } else {
            words::lemma_first_of(s, Class::Whitespace);
            let n = words::first_of(s, Class::Whitespace) as int;
            if n == 0 {
                assert(Class::Whitespace.has(s[0]));
            }
            if i == 0 {
                assert forall|k: int| 0 <= k < n implies !chars::whitespace(
                    #[trigger] s.take(n)[k],
                ) by {
                    assert(!Class::Whitespace.has(s[k]));
                }
            } else {
                law_words_are_solid(s.skip(n), i - 1);
            }
        }
    }
}

// ---- joining --------------------------------------------------------------------------

/// One more piece is joined on with one separator, and the first with none.
pub proof fn law_joining_one_more(pieces: Seq<Seq<char>>, sep: Seq<char>, piece: Seq<char>)
    ensures
        words::joined(pieces.push(piece), sep) == if pieces.len() == 0 {
            piece
        } else {
            words::joined(pieces, sep) + sep + piece
        },
        words::joined(Seq::<Seq<char>>::empty(), sep) == Seq::<char>::empty(),
{
    assert(pieces.push(piece).drop_last() =~= pieces);
}

/// The words of pieces that are joined by a space are the words of all the pieces.
pub proof fn lemma_words_of_joined(pieces: Seq<Seq<char>>)
    ensures
        words::words(words::joined(pieces, " "@)) == chained(
            pieces.map_values(|p: Seq<char>| words::words(p)),
        ),
    decreases pieces.len(),
{
    let each = pieces.map_values(|p: Seq<char>| words::words(p));
    if pieces.len() > 0 {
        let before = pieces.drop_last();
        lemma_words_of_joined(before);
        assert(each.drop_last() =~= before.map_values(|p: Seq<char>| words::words(p)));
        assert(each.last() == words::words(pieces.last()));
        if before.len() > 0 {
            reveal_strlit(" ");
            let a = words::joined(before, " "@);
            assert(" "@ =~= seq![' ']);
            law_white_space_parts_words(a, ' ', pieces.last());
            assert(words::joined(pieces, " "@) =~= a.push(' ') + pieces.last());
        } else {
            assert(pieces[0] == pieces.last());
            assert(chained(each.drop_last()) =~= seq![]);
            assert(chained(each) =~= words::words(pieces[0]));
        }
    }
}

} // verus!
