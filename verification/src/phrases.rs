//! Replacing whole phrases in running text.

use vstd::prelude::*;
use crate::chars;
use crate::chars::{chars_eq, from_chars, is_whitespace, to_chars, to_lowercase};
use crate::dictionary;
use crate::words;
use crate::words::{copy_range, split_words, trim_chars, Class};

verus! {

/// The tokens of a text: cut after every white-space character, so that each
/// token but the last ends in exactly one and their concatenation is the text.
pub open spec fn tokens(s: Seq<char>) -> Seq<Seq<char>>
    decreases s.len(),
{
    let n = words::first_of(s, Class::Whitespace) as int;
    if s.len() == 0 {
        seq![]
    } else if 0 <= n < s.len() {
        seq![s.take(n + 1)] + tokens(s.skip(n + 1))
    } else {
        seq![s]
    }
}

/// A token as it is compared: without white space, without the punctuation
/// around it, and in lower case.
pub open spec fn bare(token: Seq<char>) -> Seq<char> {
    chars::lower(words::trim_class(words::trim(token), Class::NonWord))
}

/// Tokens as they are compared.
pub open spec fn bare_all(toks: Seq<Seq<char>>) -> Seq<Seq<char>> {
    toks.map_values(|t: Seq<char>| bare(t))
}

/// Whether the words of a phrase stand at position `i` of the compared tokens.
pub open spec fn phrase_at(bares: Seq<Seq<char>>, i: int, from: Seq<char>) -> bool {
    let w = words::words(from);
    &&& w.len() > 0
    &&& i + w.len() <= bares.len()
    &&& bares.subrange(i, i + w.len()) == w
}

/// The first phrase, from the `k`-th on, that stands at position `i`, or the
/// number of phrases if none does.
pub open spec fn first_phrase(
    bares: Seq<Seq<char>>,
    i: int,
    phrases: Seq<(Seq<char>, Seq<char>)>,
    k: int,
) -> int
    decreases phrases.len() - k,
{
    if k >= phrases.len() || phrase_at(bares, i, phrases[k].0) {
        k
    } else {
        first_phrase(bares, i, phrases, k + 1)
    }
}

/// What a replacement leaves of the white space after the phrase: the one
/// character that ended its last token, unless the replacement ends a line.
pub open spec fn kept_space(token: Seq<char>, to: Seq<char>) -> Seq<char> {
    if chars::whitespace(token.last()) && !(to.len() > 0 && to.last() == '\n') {
        seq![token.last()]
    } else {
        seq![]
    }
}

/// Text whose characters each carry whether they stand in a written form, which is
/// verbatim, or were said.
pub type Marked = Seq<(char, bool)>;

/// A text all of whose characters carry the same mark.
pub open spec fn flagged(s: Seq<char>, verbatim: bool) -> Marked {
    s.map_values(|c: char| (c, verbatim))
}

/// The characters of marked text.
pub open spec fn letters(m: Marked) -> Seq<char> {
    m.map_values(|x: (char, bool)| x.0)
}

/// The tokens from `i` on with the phrases replaced: at each position the first
/// phrase that stands there, else the token as it is. What was put in is marked.
pub open spec fn replaced(
    toks: Seq<Seq<char>>,
    phrases: Seq<(Seq<char>, Seq<char>)>,
    i: int,
) -> Marked
    decreases toks.len() - i,
{
    if i < 0 || i >= toks.len() {
        seq![]
    } else {
        let bares = bare_all(toks);
        let k = first_phrase(bares, i, phrases, 0);
        if 0 <= k < phrases.len() && phrase_at(bares, i, phrases[k].0) {
            let n = words::words(phrases[k].0).len();
            flagged(phrases[k].1, true) + flagged(
                kept_space(toks[i + n - 1], phrases[k].1),
                false,
            ) + replaced(toks, phrases, i + n)
        } else {
            flagged(toks[i], false) + replaced(toks, phrases, i + 1)
        }
    }
}

/// A text with every phrase replaced, and what was put in marked.
pub open spec fn marked(s: Seq<char>, phrases: Seq<(Seq<char>, Seq<char>)>) -> Marked {
    replaced(tokens(s), phrases, 0)
}

/// A text with every phrase replaced.
pub open spec fn phrased(s: Seq<char>, phrases: Seq<(Seq<char>, Seq<char>)>) -> Seq<char> {
    letters(marked(s, phrases))
}

/// The characters of a text that was marked are the text.
pub proof fn lemma_letters(s: Seq<char>, verbatim: bool)
    ensures
        letters(flagged(s, verbatim)) == s,
{
    assert(letters(flagged(s, verbatim)) =~= s);
}

/// The characters behind marked ones.
pub fn to_letters(m: &[(char, bool)]) -> (out: String)
    ensures
        out@ == letters(m@),
{
    let mut out: String = String::new();
    let mut i: usize = 0;
    assert(out@ =~= letters(m@.take(0)));
    while i < m.len()
        invariant
            i <= m@.len(),
            out@ == letters(m@.take(i as int)),
        decreases m@.len() - i,
    {
        out.push(m[i].0);
        i += 1;
        assert(out@ =~= letters(m@.take(i as int)));
    }
    assert(m@.take(i as int) =~= m@);
    out
}

/// A text as marked text.
pub fn to_marks(text: &str) -> (out: Vec<(char, bool)>)
    ensures
        out@ == flagged(text@, false),
{
    let mut out: Vec<(char, bool)> = Vec::new();
    push_marks(&mut out, to_chars(text).as_slice(), false);
    assert(out@ =~= flagged(text@, false));
    out
}

/// Appends a text with one mark.
pub fn push_marks(out: &mut Vec<(char, bool)>, s: &[char], verbatim: bool)
    ensures
        final(out)@ == old(out)@ + flagged(s@, verbatim),
{
    let mut i: usize = 0;
    assert(out@ =~= old(out)@ + flagged(s@.take(0), verbatim));
    while i < s.len()
        invariant
            i <= s@.len(),
            out@ == old(out)@ + flagged(s@.take(i as int), verbatim),
        decreases s@.len() - i,
    {
        out.push((s[i], verbatim));
        i += 1;
        assert(out@ =~= old(out)@ + flagged(s@.take(i as int), verbatim));
    }
    assert(s@.take(i as int) =~= s@);
}

pub proof fn lemma_first_phrase(
    bares: Seq<Seq<char>>,
    i: int,
    phrases: Seq<(Seq<char>, Seq<char>)>,
    k: int,
)
    requires
        0 <= k <= phrases.len(),
    ensures
        k <= first_phrase(bares, i, phrases, k) <= phrases.len(),
        first_phrase(bares, i, phrases, k) < phrases.len() ==> phrase_at(
            bares,
            i,
            phrases[first_phrase(bares, i, phrases, k)].0,
        ),
        forall|j: int|
            k <= j < first_phrase(bares, i, phrases, k) ==> !phrase_at(
                bares,
                i,
                #[trigger] phrases[j].0,
            ),
    decreases phrases.len() - k,
{
    if k < phrases.len() && !phrase_at(bares, i, phrases[k].0) {
        lemma_first_phrase(bares, i, phrases, k + 1);
    }
}

proof fn lemma_tokens_not_empty(s: Seq<char>)
    ensures
        forall|i: int| 0 <= i < tokens(s).len() ==> (#[trigger] tokens(s)[i]).len() > 0,
    decreases s.len(),
{
    let n = words::first_of(s, Class::Whitespace) as int;
    words::lemma_first_of(s, Class::Whitespace);
    if s.len() > 0 && n < s.len() {
        lemma_tokens_not_empty(s.skip(n + 1));
        assert forall|i: int| 0 <= i < tokens(s).len() implies (#[trigger] tokens(s)[i]).len()
            > 0 by {
            if i > 0 {
                assert(tokens(s)[i] == tokens(s.skip(n + 1))[i - 1]);
            }
        }
    }
}

/// The tokens of a text.
fn split_tokens(text: &[char]) -> (out: Vec<Vec<char>>)
    ensures
        words::runs(out@) == tokens(text@),
{
    let mut out: Vec<Vec<char>> = Vec::new();
    let mut i: usize = 0;
    proof {
        assert(text@.skip(0) =~= text@);
        assert(words::runs(out@) + tokens(text@) =~= tokens(text@));
    }
    while i < text.len()
        invariant
            i <= text@.len(),
            words::runs(out@) + tokens(text@.skip(i as int)) == tokens(text@),
        decreases text@.len() - i,
    {
        let ghost rest = text@.skip(i as int);
        let a: usize = i;
        while i < text.len() && !is_whitespace(text[i])
            invariant
                a <= i <= text@.len(),
                forall|k: int| a <= k < i ==> !chars::whitespace(#[trigger] text@[k]),
            decreases text@.len() - i,
        {
            i += 1;
        }
        proof {
            words::lemma_first_of_is(rest, Class::Whitespace, i - a);
        }
        let ended: bool = i < text.len();
        if ended {
            i += 1;
        }
        let w: Vec<char> = copy_range(text, a, i);
        proof {
            assert(rest.take(i - a) =~= w@);
            assert(rest.skip(i - a) =~= text@.skip(i as int));
            if ended {
                assert(tokens(rest) == seq![w@] + tokens(text@.skip(i as int)));
            } else {
                assert(rest =~= w@);
                assert(text@.skip(i as int) =~= seq![]);
                assert(tokens(rest) =~= seq![w@] + tokens(text@.skip(i as int)));
            }
            assert(words::runs(out@.push(w)) =~= words::runs(out@).push(w@));
            assert(words::runs(out@) + (seq![w@] + tokens(text@.skip(i as int))) =~= words::runs(
                out@.push(w),
            ) + tokens(text@.skip(i as int)));
        }
        out.push(w);
    }
    proof {
        assert(text@.skip(i as int) =~= seq![]);
        assert(words::runs(out@) + tokens(text@.skip(i as int)) =~= words::runs(out@));
    }
    out
}

/// A token as it is compared.
fn bare_token(token: &[char]) -> (out: Vec<char>)
    ensures
        out@ == bare(token@),
{
    let t: Vec<char> = trim_chars(token, Class::Whitespace);
    let u: Vec<char> = trim_chars(t.as_slice(), Class::NonWord);
    let s: String = from_chars(u.as_slice());
    to_chars(to_lowercase(s.as_str()).as_str())
}

/// Whether these words stand at position `i` of the compared tokens.
fn stands_at(bares: &Vec<Vec<char>>, i: usize, from: &Vec<Vec<char>>) -> (r: bool)
    requires
        i <= bares@.len(),
    ensures
        r == (from@.len() > 0 && i + from@.len() <= bares@.len() && words::runs(bares@).subrange(
            i as int,
            i + from@.len(),
        ) == words::runs(from@)),
{
    if from.len() == 0 || from.len() > bares.len() - i {
        return false;
    }
    let mut k: usize = 0;
    let ghost here = words::runs(bares@).subrange(i as int, i + from@.len());
    while k < from.len()
        invariant
            k <= from@.len(),
            i + from@.len() <= bares@.len() <= usize::MAX,
            here == words::runs(bares@).subrange(i as int, i + from@.len()),
            forall|j: int| 0 <= j < k ==> #[trigger] here[j] == words::runs(from@)[j],
        decreases from@.len() - k,
    {
        if !chars_eq(bares[i + k].as_slice(), from[k].as_slice()) {
            assert(here[k as int] != words::runs(from@)[k as int]);
            return false;
        }
        k += 1;
    }
    assert(here =~= words::runs(from@));
    true
}

/// A text with every phrase replaced.
pub fn apply_phrases(text: &str, phrases: &Vec<(String, String)>) -> (out: String)
    ensures
        out@ == phrased(text@, dictionary::pairs(phrases@)),
{
    to_letters(mark_phrases(text, phrases).as_slice())
}

/// A text with every phrase replaced and what was put in marked: compared word by
/// word without regard to case or to punctuation around a word, the first phrase that
/// fits winning.
pub fn mark_phrases(text: &str, phrases: &Vec<(String, String)>) -> (out: Vec<(char, bool)>)
    ensures
        out@ == marked(text@, dictionary::pairs(phrases@)),
{
    let toks: Vec<Vec<char>> = split_tokens(to_chars(text).as_slice());
    let ghost ts = words::runs(toks@);
    let ghost ps = dictionary::pairs(phrases@);
    let ghost bs = bare_all(ts);
    proof {
        lemma_tokens_not_empty(text@);
    }
    let mut bares: Vec<Vec<char>> = Vec::new();
    let mut t: usize = 0;
    while t < toks.len()
        invariant
            t <= toks@.len(),
            t == bares@.len(),
            ts == words::runs(toks@),
            forall|j: int| 0 <= j < t ==> (#[trigger] bares@[j])@ == bare(ts[j]),
        decreases toks@.len() - t,
    {
        bares.push(bare_token(toks[t].as_slice()));
        t += 1;
    }
    let mut froms: Vec<Vec<Vec<char>>> = Vec::new();
    let mut p: usize = 0;
    while p < phrases.len()
        invariant
            p <= phrases@.len(),
            p == froms@.len(),
            ps == dictionary::pairs(phrases@),
            forall|j: int|
                0 <= j < p ==> words::runs((#[trigger] froms@[j])@) == words::words(ps[j].0),
        decreases phrases@.len() - p,
    {
        froms.push(split_words(to_chars(phrases[p].0.as_str()).as_slice()));
        p += 1;
    }
    assert(words::runs(bares@) =~= bs);

    let mut out: Vec<(char, bool)> = Vec::new();
    let mut i: usize = 0;
    proof {
        assert(out@ + replaced(ts, ps, 0) =~= replaced(ts, ps, 0));
    }
    while i < toks.len()
        invariant
            i <= toks@.len(),
            ts == words::runs(toks@),
            ps == dictionary::pairs(phrases@),
            bs == bare_all(ts),
            bs == words::runs(bares@),
            bares@.len() == toks@.len(),
            froms@.len() == phrases@.len(),
            forall|j: int|
                0 <= j < froms@.len() ==> words::runs((#[trigger] froms@[j])@) == words::words(
                    ps[j].0,
                ),
            forall|j: int| 0 <= j < ts.len() ==> (#[trigger] ts[j]).len() > 0,
            out@ + replaced(ts, ps, i as int) == replaced(ts, ps, 0),
        decreases toks@.len() - i,
    {
        let mut k: usize = 0;
        while k < froms.len() && !stands_at(&bares, i, &froms[k])
            invariant
                k <= froms@.len(),
                i < bares@.len(),
                froms@.len() == phrases@.len(),
                ps == dictionary::pairs(phrases@),
                bs == words::runs(bares@),
                forall|j: int|
                    0 <= j < froms@.len() ==> words::runs((#[trigger] froms@[j])@) == words::words(
                        ps[j].0,
                    ),
                first_phrase(bs, i as int, ps, k as int) == first_phrase(bs, i as int, ps, 0),
            decreases froms@.len() - k,
        {
            assert(words::runs(froms@[k as int]@) == words::words(ps[k as int].0));
            assert(words::runs(froms@[k as int]@).len() == froms@[k as int]@.len());
            k += 1;
        }
        if k < froms.len() {
            let n: usize = froms[k].len();
            proof {
                assert(words::runs(froms@[k as int]@) == words::words(ps[k as int].0));
                assert(words::runs(froms@[k as int]@).len() == n);
                assert(phrase_at(bs, i as int, ps[k as int].0));
            }
            let to: &String = &phrases[k].1;
            let ghost before = out@;
            let written: Vec<char> = to_chars(to.as_str());
            push_marks(&mut out, written.as_slice(), true);
            let token: &Vec<char> = &toks[i + n - 1];
            assert(token@ == ts[i + n - 1]);
            let last: char = token[token.len() - 1];
            if is_whitespace(last) && (written.len() == 0 || written[written.len() - 1] != '\n') {
                out.push((last, false));
            }
            proof {
                let put = flagged(ps[k as int].1, true);
                let gap = flagged(kept_space(ts[i + n - 1], ps[k as int].1), false);
                assert(out@ =~= before + put + gap);
                assert(before + (put + gap + replaced(ts, ps, i + n)) =~= out@ + replaced(
                    ts,
                    ps,
                    i + n,
                ));
            }
            i += n;
        } else {
            let ghost before = out@;
            push_marks(&mut out, toks[i].as_slice(), false);
            proof {
                assert(before + (flagged(ts[i as int], false) + replaced(ts, ps, i + 1)) =~= out@
                    + replaced(ts, ps, i + 1));
            }
            i += 1;
        }
    }
    proof {
        assert(out@ + replaced(ts, ps, i as int) =~= out@);
    }
    out
}

} // verus!
