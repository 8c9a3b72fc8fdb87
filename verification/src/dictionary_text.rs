//! The dictionary as a person types it: one entry to a line.
//!
//! Two forms. `lift off = Lift-Off` is heard on the left and written on the
//! right. A bare term is recognised and written as typed; it is keyed on how it
//! is said, so that the hyphen in it does not have to be.

use vstd::prelude::*;
use crate::chars;
use crate::chars::{from_chars, push_str, to_chars, to_lowercase};
use crate::dictionary;
use crate::dictionary::Dictionary;
use crate::words;
use crate::words::{
    copy_range, join_texts, split_lines, split_words, trim_chars, Class,
};

verus! {

// ---- from text --------------------------------------------------------------------

/// A character that is written and not said.
pub open spec fn silent(c: char) -> bool {
    c == '-' || c == '_' || c == '/'
}

/// A text with a space for each character that is not said.
pub open spec fn sounded(s: Seq<char>) -> Seq<char> {
    s.map_values(
        |c: char|
            if silent(c) {
                ' '
            } else {
                c
            },
    )
}

/// How a term is said.
pub open spec fn said(term: Seq<char>) -> Seq<char> {
    words::joined(words::words(sounded(chars::lower(term))), " "@)
}

/// One side of a pair: without white space around it, then without quotes.
pub open spec fn side(s: Seq<char>) -> Seq<char> {
    words::trim_class(words::trim(s), Class::Quote)
}

/// A line holds something: it is neither blank nor a note.
pub open spec fn meant(line: Seq<char>) -> bool {
    let t = words::trim(line);
    t.len() > 0 && t[0] != '#'
}

/// What a line that holds something says: what is heard and what is written.
pub open spec fn sides(line: Seq<char>) -> (Seq<char>, Seq<char>) {
    let t = words::trim(line);
    let n = words::index_of(t, '=') as int;
    if n < t.len() {
        (side(t.take(n)), side(t.skip(n + 1)))
    } else {
        let term = words::trim_class(t, Class::Quote);
        (said(term), term)
    }
}

/// The entry of a line, if it has one: neither side may be empty.
pub open spec fn entry_of(line: Seq<char>) -> Option<(Seq<char>, Seq<char>)> {
    let (spoken, written) = sides(line);
    if meant(line) && spoken.len() > 0 && written.len() > 0 {
        Some((spoken, written))
    } else {
        None
    }
}

/// The entries of a list of lines; a later line for the same spoken form takes
/// the place of an earlier one.
pub open spec fn entries_of(lines: Seq<Seq<char>>) -> Seq<(Seq<char>, Seq<char>)>
    decreases lines.len(),
{
    if lines.len() == 0 {
        seq![]
    } else {
        let before = entries_of(lines.drop_last());
        match entry_of(lines.last()) {
            Some((spoken, written)) => dictionary::put(before, spoken, written),
            None => before,
        }
    }
}

/// How many of the lines hold something.
pub open spec fn meant_count(lines: Seq<Seq<char>>) -> nat
    decreases lines.len(),
{
    if lines.len() == 0 {
        0
    } else {
        meant_count(lines.drop_last()) + if meant(lines.last()) {
            1nat
        } else {
            0nat
        }
    }
}

fn is_meant(t: &[char]) -> (r: bool)
    ensures
        r == (t@.len() > 0 && t@[0] != '#'),
{
    t.len() > 0 && t[0] != '#'
}

fn find_equals(t: &[char]) -> (n: usize)
    ensures
        n == words::index_of(t@, '='),
{
    let mut i: usize = 0;
    while i < t.len() && t[i] != '='
        invariant
            i <= t@.len(),
            forall|k: int| 0 <= k < i ==> #[trigger] t@[k] != '=',
        decreases t@.len() - i,
    {
        i += 1;
    }
    proof {
        words::lemma_index_of_is(t@, '=', i as int);
    }
    i
}

fn side_of(s: &[char]) -> (out: String)
    ensures
        out@ == side(s@),
{
    let inner: Vec<char> = trim_chars(s, Class::Whitespace);
    from_chars(trim_chars(inner.as_slice(), Class::Quote).as_slice())
}

/// How a term is said.
fn how_said(term: &str) -> (out: String)
    ensures
        out@ == said(term@),
{
    let lower: Vec<char> = to_chars(to_lowercase(term).as_str());
    let mut plain: Vec<char> = Vec::new();
    let mut i: usize = 0;
    while i < lower.len()
        invariant
            i <= lower@.len(),
            lower@ == chars::lower(term@),
            plain@ == sounded(lower@).take(i as int),
        decreases lower@.len() - i,
    {
        let c: char = lower[i];
        plain.push(
            if c == '-' || c == '_' || c == '/' {
                ' '
            } else {
                c
            },
        );
        i += 1;
        assert(plain@ =~= sounded(lower@).take(i as int));
    }
    assert(sounded(lower@).take(i as int) =~= sounded(lower@));
    let runs: Vec<Vec<char>> = split_words(plain.as_slice());
    let mut texts: Vec<String> = Vec::new();
    let mut k: usize = 0;
    assert(chars::texts(texts@) =~= words::runs(runs@).take(0));
    while k < runs.len()
        invariant
            k <= runs@.len(),
            chars::texts(texts@) == words::runs(runs@).take(k as int),
        decreases runs@.len() - k,
    {
        let ghost before = chars::texts(texts@);
        let w: String = from_chars(runs[k].as_slice());
        let ghost shown = w@;
        texts.push(w);
        k += 1;
        assert(chars::texts(texts@) =~= before.push(shown));
        assert(words::runs(runs@).take(k as int) =~= before.push(words::runs(runs@)[k - 1]));
    }
    assert(words::runs(runs@).take(k as int) =~= words::runs(runs@));
    join_texts(texts.as_slice(), " ")
}

/// What a trimmed line says.
fn sides_of(t: &[char]) -> (r: (String, String))
    ensures
        ({
            let n = words::index_of(t@, '=') as int;
            (r.0@, r.1@) == if n < t@.len() {
                (side(t@.take(n)), side(t@.skip(n + 1)))
            } else {
                let term = words::trim_class(t@, Class::Quote);
                (said(term), term)
            }
        }),
{
    let n: usize = find_equals(t);
    if n < t.len() {
        let left: Vec<char> = copy_range(t, 0, n);
        let right: Vec<char> = copy_range(t, n + 1, t.len());
        assert(t@.subrange(0, n as int) =~= t@.take(n as int));
        assert(t@.subrange(n + 1, t@.len() as int) =~= t@.skip(n + 1));
        (side_of(left.as_slice()), side_of(right.as_slice()))
    } else {
        let term: String = from_chars(trim_chars(t, Class::Quote).as_slice());
        (how_said(term.as_str()), term)
    }
}

/// Reads a dictionary from text.
pub fn text_to_dictionary(text: &str) -> (d: Dictionary)
    ensures
        d@ == entries_of(words::lines(text@)),
{
    let mut d: Dictionary = Dictionary::new();
    let all: Vec<Vec<char>> = split_lines(to_chars(text).as_slice());
    let ghost lines = words::runs(all@);
    let mut i: usize = 0;
    assert(lines.take(0) =~= seq![]);
    while i < all.len()
        invariant
            i <= all@.len(),
            lines == words::runs(all@),
            lines == words::lines(text@),
            d@ == entries_of(lines.take(i as int)),
        decreases all@.len() - i,
    {
        proof {
            assert(lines.take(i + 1).drop_last() =~= lines.take(i as int));
            assert(lines.take(i + 1).last() == all@[i as int]@);
        }
        let t: Vec<char> = trim_chars(all[i].as_slice(), Class::Whitespace);
        if is_meant(t.as_slice()) {
            let (spoken, written) = sides_of(t.as_slice());
            if !spoken.as_str().is_empty() && !written.as_str().is_empty() {
                d.insert(spoken, written);
            }
        }
        i += 1;
    }
    assert(lines.take(i as int) =~= lines);
    d
}

/// How many lines of a text hold something.
pub fn count_meant(text: &str) -> (n: usize)
    ensures
        n == meant_count(words::lines(text@)),
{
    let all: Vec<Vec<char>> = split_lines(to_chars(text).as_slice());
    let ghost lines = words::runs(all@);
    let mut n: usize = 0;
    let mut i: usize = 0;
    while i < all.len()
        invariant
            i <= all@.len(),
            n <= i,
            lines == words::runs(all@),
            lines == words::lines(text@),
            n == meant_count(lines.take(i as int)),
        decreases all@.len() - i,
    {
        proof {
            assert(lines.take(i + 1).drop_last() =~= lines.take(i as int));
            assert(lines.take(i + 1).last() == all@[i as int]@);
        }
        let t: Vec<char> = trim_chars(all[i].as_slice(), Class::Whitespace);
        if is_meant(t.as_slice()) {
            n += 1;
        }
        i += 1;
    }
    assert(lines.take(i as int) =~= lines);
    n
}

// ---- to text ----------------------------------------------------------------------

/// Text comes before other text: by the first character in which they differ,
/// and a text before what it begins.
pub open spec fn text_less(a: Seq<char>, b: Seq<char>) -> bool
    decreases a.len(),
{
    if b.len() == 0 {
        false
    } else if a.len() == 0 {
        true
    } else if a[0] != b[0] {
        (a[0] as int) < (b[0] as int)
    } else {
        text_less(a.drop_first(), b.drop_first())
    }
}

/// Where an entry with a key goes among entries in order: after all that do not
/// come after it.
pub open spec fn slot(sorted: Seq<(Seq<char>, Seq<char>)>, key: Seq<char>) -> int
    decreases sorted.len(),
{
    if sorted.len() == 0 {
        0
    } else if text_less(key, sorted.last().0) {
        slot(sorted.drop_last(), key)
    } else {
        sorted.len() as int
    }
}

/// Entries in the order of their spoken forms.
pub open spec fn in_order(entries: Seq<(Seq<char>, Seq<char>)>) -> Seq<(Seq<char>, Seq<char>)>
    decreases entries.len(),
{
    if entries.len() == 0 {
        seq![]
    } else {
        let sorted = in_order(entries.drop_last());
        sorted.insert(slot(sorted, entries.last().0), entries.last())
    }
}

/// An entry as a line.
pub open spec fn line_of(e: (Seq<char>, Seq<char>)) -> Seq<char> {
    e.0 + " = "@ + e.1
}

/// The lines of a dictionary, in order.
pub open spec fn shown_lines(entries: Seq<(Seq<char>, Seq<char>)>) -> Seq<Seq<char>> {
    in_order(entries).map_values(|e: (Seq<char>, Seq<char>)| line_of(e))
}

/// A dictionary as text.
pub open spec fn shown(entries: Seq<(Seq<char>, Seq<char>)>) -> Seq<char> {
    words::joined(shown_lines(entries), "\r\n"@)
}

fn comes_before(a: &[char], b: &[char]) -> (r: bool)
    ensures
        r == text_less(a@, b@),
{
    let n: usize = a.len();
    let m: usize = b.len();
    let mut i: usize = 0;
    assert(a@.skip(0) =~= a@ && b@.skip(0) =~= b@);
    while i < n && i < m
        invariant
            i <= n == a@.len(),
            i <= m == b@.len(),
            text_less(a@, b@) == text_less(a@.skip(i as int), b@.skip(i as int)),
        decreases n - i,
    {
        if a[i] != b[i] {
            return a[i] < b[i];
        }
        assert(a@.skip(i as int).drop_first() =~= a@.skip(i + 1));
        assert(b@.skip(i as int).drop_first() =~= b@.skip(i + 1));
        i += 1;
    }
    i < m
}

/// The entries of a dictionary in the order of their spoken forms.
pub fn sorted_entries(d: &Dictionary) -> (out: Vec<(String, String)>)
    ensures
        dictionary::pairs(out@) == in_order(d@),
{
    let mut out: Vec<(String, String)> = Vec::new();
    let n: usize = d.len();
    let mut i: usize = 0;
    assert(dictionary::pairs(out@) =~= in_order(d@.take(0)));
    while i < n
        invariant
            i <= n == d@.len(),
            dictionary::pairs(out@) == in_order(d@.take(i as int)),
        decreases n - i,
    {
        let (spoken, written) = d.entry(i);
        let e: (String, String) = (spoken.clone(), written.clone());
        let ghost here = d@[i as int];
        let ghost sorted = dictionary::pairs(out@);
        proof {
            assert(d@.take(i + 1).drop_last() =~= d@.take(i as int));
            assert(d@.take(i + 1).last() == here);
        }
        let key: Vec<char> = to_chars(spoken.as_str());
        let mut p: usize = out.len();
        assert(sorted.take(p as int) =~= sorted);
        while p > 0 && comes_before(
            key.as_slice(),
            to_chars(out[p - 1].0.as_str()).as_slice(),
        )
            invariant
                p <= out@.len(),
                key@ == here.0,
                sorted == dictionary::pairs(out@),
                slot(sorted, here.0) == slot(sorted.take(p as int), here.0),
            decreases p,
        {
            proof {
                assert(sorted.take(p as int).last() == sorted[p - 1]);
                assert(sorted.take(p as int).drop_last() =~= sorted.take(p - 1));
            }
            p -= 1;
        }
        proof {
            if p > 0 {
                assert(sorted.take(p as int).last() == sorted[p - 1]);
            }
            assert(slot(sorted, here.0) == p);
        }
        out.insert(p, e);
        assert(dictionary::pairs(out@) =~= sorted.insert(p as int, here));
        i += 1;
    }
    assert(d@.take(i as int) =~= d@);
    out
}

/// A dictionary as text, one entry to a line.
pub fn dictionary_to_text(d: &Dictionary) -> (out: String)
    ensures
        out@ == shown(d@),
{
    let entries: Vec<(String, String)> = sorted_entries(d);
    let mut texts: Vec<String> = Vec::new();
    let mut i: usize = 0;
    let ghost all = shown_lines(d@);
    assert(chars::texts(texts@) =~= all.take(0));
    while i < entries.len()
        invariant
            i <= entries@.len(),
            dictionary::pairs(entries@) == in_order(d@),
            all == shown_lines(d@),
            chars::texts(texts@) == all.take(i as int),
        decreases entries@.len() - i,
    {
        let ghost before = chars::texts(texts@);
        let mut line: String = entries[i].0.clone();
        push_str(&mut line, " = ");
        push_str(&mut line, entries[i].1.as_str());
        let ghost said = line@;
        proof {
            let e = dictionary::pairs(entries@)[i as int];
            assert(said == line_of(e));
            assert(all[i as int] == line_of(e));
        }
        texts.push(line);
        i += 1;
        assert(chars::texts(texts@) =~= before.push(said));
        assert(all.take(i as int) =~= before.push(all[i - 1]));
    }
    assert(all.take(i as int) =~= all);
    join_texts(texts.as_slice(), "\r\n")
}

} // verus!
