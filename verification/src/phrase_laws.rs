//! Which words a dictionary entry is applied to, and what stands there afterwards.

use vstd::prelude::*;
use crate::chars;
use crate::phrases;
use crate::words;
use crate::words::Class;
use crate::words_laws;

verus! {

/// A word: no white space, and a letter, a number or an apostrophe at either end. Inside it
/// anything else may stand, such as a hyphen.
pub open spec fn plain_word(w: Seq<char>) -> bool {
    &&& words_laws::no_space(w)
    &&& w.len() > 0 ==> (chars::alphanumeric(w[0]) || w[0] == '\'') && (chars::alphanumeric(
        w.last(),
    ) || w.last() == '\'')
}

/// Punctuation: no letter, no number, no apostrophe and no white space.
pub open spec fn punctuation(s: Seq<char>) -> bool {
    forall|i: int|
        0 <= i < s.len() ==> !chars::alphanumeric(#[trigger] s[i]) && s[i] != '\''
            && !chars::whitespace(s[i])
}

/// Punctuation around a word, and the white space that ends it, do not hide it: it is
/// compared as the lower case of the word alone.
pub proof fn law_punctuation_does_not_hide_a_word(
    before: Seq<char>,
    w: Seq<char>,
    after: Seq<char>,
    space: Seq<char>,
)
    requires
        punctuation(before),
        plain_word(w),
        punctuation(after),
        words_laws::all_space(space),
    ensures
        phrases::bare(before + w + after + space) == chars::lower(w),
{
    let t = before + w + after;
    if t.len() > 0 {
        assert(!chars::whitespace(t[0])) by {
            if before.len() > 0 {
                assert(t[0] == before[0]);
            } else if w.len() > 0 {
                assert(t[0] == w[0]);
            } else {
                assert(t[0] == after[0]);
            }
        }
        assert(!chars::whitespace(t.last())) by {
            if after.len() > 0 {
                assert(t.last() == after[after.len() - 1]);
            } else if w.len() > 0 {
                assert(t.last() == w[w.len() - 1]);
            } else {
                assert(t.last() == before[before.len() - 1]);
            }
        }
    }
    words_laws::law_trimming(Seq::empty(), t, space);
    assert(Seq::<char>::empty() + t + space =~= before + w + after + space);
    let r = words_laws::lemma_trim_parts(t, Class::NonWord);
    let a = before.len() as int;
    let b = a + w.len();
    if r.0 < r.1 {
        if r.0 < a {
            assert(t[r.0] == before[r.0]);
        } else if r.0 >= b {
            assert(t[r.0] == after[r.0 - b]);
        }
        if r.1 > b {
            assert(t[r.1 - 1] == after[r.1 - 1 - b]);
        } else if r.1 <= a {
            assert(t[r.1 - 1] == before[r.1 - 1]);
        }
    }
    if w.len() > 0 {
        assert(t[a] == w[0]);
        assert(t[b - 1] == w[w.len() - 1]);
        if r.0 > a || r.1 <= a {
            assert(Class::NonWord.has(t[a]));
        }
        if r.1 < b {
            assert(Class::NonWord.has(t[b - 1]));
        }
    }
    assert(t.subrange(r.0, r.1) =~= w);
}

// ---- tokens ---------------------------------------------------------------------------

proof fn lemma_first_token(t: Seq<char>, g: char, rest: Seq<char>)
    requires
        words_laws::no_space(t),
        chars::whitespace(g),
    ensures
        phrases::tokens(t.push(g) + rest) == seq![t.push(g)] + phrases::tokens(rest),
{
    let all = t.push(g) + rest;
    let n = t.len() as int;
    assert forall|i: int| 0 <= i < n implies !Class::Whitespace.has(#[trigger] all[i]) by {
        assert(all[i] == t[i]);
    }
    assert(all[n] == g);
    words::lemma_first_of_is(all, Class::Whitespace, n);
    assert(all.take(n + 1) =~= t.push(g));
    assert(all.skip(n + 1) =~= rest);
}

proof fn lemma_only_token(t: Seq<char>)
    requires
        words_laws::no_space(t),
        t.len() > 0,
    ensures
        phrases::tokens(t) == seq![t],
{
    assert forall|i: int| 0 <= i < t.len() implies !Class::Whitespace.has(#[trigger] t[i]) by {
        assert(!chars::whitespace(t[i]));
    }
    words::lemma_first_of_is(t, Class::Whitespace, t.len() as int);
}

/// What is said for a phrase: its words one after the other, each with punctuation around
/// it and ended by one white-space character, but for the last where there is none left.
pub open spec fn uttered(
    before: Seq<Seq<char>>,
    ws: Seq<Seq<char>>,
    after: Seq<Seq<char>>,
    gaps: Seq<char>,
) -> Seq<char>
    decreases ws.len(),
{
    if ws.len() == 0 {
        seq![]
    } else {
        before[0] + ws[0] + after[0] + (if gaps.len() > 0 {
            seq![gaps[0]]
        } else {
            seq![]
        }) + uttered(
            before.drop_first(),
            ws.drop_first(),
            after.drop_first(),
            if gaps.len() > 0 {
                gaps.drop_first()
            } else {
                gaps
            },
        )
    }
}

/// The pieces of an utterance fit together.
pub open spec fn well_uttered(
    before: Seq<Seq<char>>,
    ws: Seq<Seq<char>>,
    after: Seq<Seq<char>>,
    gaps: Seq<char>,
    rest: Seq<char>,
) -> bool {
    &&& before.len() == ws.len()
    &&& after.len() == ws.len()
    &&& gaps.len() == ws.len() || (gaps.len() + 1 == ws.len() && rest.len() == 0)
    &&& forall|i: int| 0 <= i < ws.len() ==> (#[trigger] ws[i]).len() > 0 && plain_word(ws[i])
    &&& forall|i: int| 0 <= i < before.len() ==> punctuation(#[trigger] before[i])
    &&& forall|i: int| 0 <= i < after.len() ==> punctuation(#[trigger] after[i])
    &&& forall|i: int| 0 <= i < gaps.len() ==> chars::whitespace(#[trigger] gaps[i])
}

/// The tokens of an utterance.
spec fn pieces(
    before: Seq<Seq<char>>,
    ws: Seq<Seq<char>>,
    after: Seq<Seq<char>>,
    gaps: Seq<char>,
) -> Seq<Seq<char>> {
    Seq::new(
        ws.len(),
        |i: int|
            before[i] + ws[i] + after[i] + (if i < gaps.len() {
                seq![gaps[i]]
            } else {
                seq![]
            }),
    )
}

proof fn lemma_no_space_in(before: Seq<char>, w: Seq<char>, after: Seq<char>)
    requires
        punctuation(before),
        plain_word(w),
        punctuation(after),
    ensures
        words_laws::no_space(before + w + after),
{
    let t = before + w + after;
    assert forall|i: int| 0 <= i < t.len() implies !chars::whitespace(#[trigger] t[i]) by {
        if i < before.len() {
            assert(t[i] == before[i]);
        } else if i < before.len() + w.len() {
            assert(t[i] == w[i - before.len()]);
        } else {
            assert(t[i] == after[i - before.len() - w.len()]);
        }
    }
}

proof fn lemma_tokens_uttered(
    before: Seq<Seq<char>>,
    ws: Seq<Seq<char>>,
    after: Seq<Seq<char>>,
    gaps: Seq<char>,
    rest: Seq<char>,
)
    requires
        well_uttered(before, ws, after, gaps, rest),
    ensures
        phrases::tokens(uttered(before, ws, after, gaps) + rest) == pieces(
            before,
            ws,
            after,
            gaps,
        ) + phrases::tokens(rest),
    decreases ws.len(),
{
    let all = uttered(before, ws, after, gaps) + rest;
    let ps = pieces(before, ws, after, gaps);
    if ws.len() == 0 {
        assert(all =~= rest);
        assert(ps + phrases::tokens(rest) =~= phrases::tokens(rest));
    } else {
        let t = before[0] + ws[0] + after[0];
        assert(ws[0].len() > 0);
        lemma_no_space_in(before[0], ws[0], after[0]);
        if gaps.len() > 0 {
            let (b, w, a, g) = (
                before.drop_first(),
                ws.drop_first(),
                after.drop_first(),
                gaps.drop_first(),
            );
            assert(well_uttered(b, w, a, g, rest)) by {
                assert forall|i: int| 0 <= i < w.len() implies (#[trigger] w[i]).len() > 0
                    && plain_word(w[i]) by {
                    assert(w[i] == ws[i + 1]);
                }
                assert forall|i: int| 0 <= i < b.len() implies punctuation(#[trigger] b[i]) by {
                    assert(b[i] == before[i + 1]);
                }
                assert forall|i: int| 0 <= i < a.len() implies punctuation(#[trigger] a[i]) by {
                    assert(a[i] == after[i + 1]);
                }
                assert forall|i: int| 0 <= i < g.len() implies chars::whitespace(
                    #[trigger] g[i],
                ) by {
                    assert(g[i] == gaps[i + 1]);
                }
            }
            lemma_tokens_uttered(b, w, a, g, rest);
            let tail = uttered(b, w, a, g) + rest;
            assert(chars::whitespace(gaps[0]));
            lemma_first_token(t, gaps[0], tail);
            assert(all =~= t.push(gaps[0]) + tail);
            assert(t + seq![gaps[0]] =~= t.push(gaps[0]));
            assert(ps =~= seq![t.push(gaps[0])] + pieces(b, w, a, g));
            assert(phrases::tokens(all) =~= ps + phrases::tokens(rest));
        } else {
            assert(ws.len() == 1);
            assert(uttered(
                before.drop_first(),
                ws.drop_first(),
                after.drop_first(),
                gaps,
            ) =~= seq![]);
            assert(all =~= t);
            lemma_only_token(t);
            assert(ps[0] =~= t);
            assert(phrases::tokens(rest) =~= seq![]);
            assert(ps + phrases::tokens(rest) =~= seq![t]);
        }
    }
}

// ---- replacing ------------------------------------------------------------------------

proof fn lemma_replaced_shift(
    toks: Seq<Seq<char>>,
    ps: Seq<(Seq<char>, Seq<char>)>,
    d: int,
    i: int,
)
    requires
        0 <= d <= toks.len(),
        0 <= i,
    ensures
        phrases::replaced(toks, ps, d + i) == phrases::replaced(toks.skip(d), ps, i),
    decreases toks.len() - d - i,
{
    let tail = toks.skip(d);
    if d + i < toks.len() {
        let bares = phrases::bare_all(toks);
        let bs = phrases::bare_all(tail);
        assert(bs =~= bares.skip(d));
        lemma_phrase_shift(bares, bs, ps, d, i, 0);
        phrases::lemma_first_phrase(bares, d + i, ps, 0);
        let k = phrases::first_phrase(bares, d + i, ps, 0);
        assert(tail[i] == toks[d + i]);
        if k < ps.len() {
            let n = words::words(ps[k].0).len() as int;
            lemma_stands_shift(bares, bs, ps[k].0, d, i);
            lemma_replaced_shift(toks, ps, d, i + n);
            assert(tail[i + n - 1] == toks[d + i + n - 1]);
            assert(d + i + n == d + (i + n));
        } else {
            lemma_replaced_shift(toks, ps, d, i + 1);
            assert(d + i + 1 == d + (i + 1));
        }
    }
}

proof fn lemma_stands_shift(
    bares: Seq<Seq<char>>,
    bs: Seq<Seq<char>>,
    from: Seq<char>,
    d: int,
    i: int,
)
    requires
        0 <= d <= bares.len(),
        0 <= i,
        bs == bares.skip(d),
    ensures
        phrases::phrase_at(bares, d + i, from) == phrases::phrase_at(bs, i, from),
{
    let n = words::words(from).len() as int;
    if d + i + n <= bares.len() {
        assert(bares.subrange(d + i, d + i + n) =~= bs.subrange(i, i + n));
    }
}

proof fn lemma_phrase_shift(
    bares: Seq<Seq<char>>,
    bs: Seq<Seq<char>>,
    ps: Seq<(Seq<char>, Seq<char>)>,
    d: int,
    i: int,
    k: int,
)
    requires
        0 <= d <= bares.len(),
        0 <= i,
        0 <= k <= ps.len(),
        bs == bares.skip(d),
    ensures
        phrases::first_phrase(bares, d + i, ps, k) == phrases::first_phrase(bs, i, ps, k),
    decreases ps.len() - k,
{
    if k < ps.len() {
        lemma_stands_shift(bares, bs, ps[k].0, d, i);
        lemma_phrase_shift(bares, bs, ps, d, i, k + 1);
    }
}

/// The words of a spoken form part from what was said: one of the words that were said
/// stands where the form has another.
pub open spec fn parts_from(from: Seq<char>, ws: Seq<Seq<char>>) -> bool {
    words::words(from).len() > 0 ==> exists|i: int|
        0 <= i < ws.len() && i < words::words(from).len() && words::words(from)[i] != chars::lower(
            #[trigger] ws[i],
        )
}

/// Where the words of an entry are said, in any case and with any punctuation around
/// them, its written form stands in their place, with the white space that followed unless
/// it ends a line. It does so where no entry that is tried earlier could stand there. What
/// follows is dealt with on its own.
pub proof fn law_entry_is_applied(
    entries: Seq<(Seq<char>, Seq<char>)>,
    k: int,
    before: Seq<Seq<char>>,
    ws: Seq<Seq<char>>,
    after: Seq<Seq<char>>,
    gaps: Seq<char>,
    rest: Seq<char>,
)
    requires
        well_uttered(before, ws, after, gaps, rest),
        ws.len() > 0,
        0 <= k < entries.len(),
        words::words(entries[k].0) == ws.map_values(|w: Seq<char>| chars::lower(w)),
        forall|j: int| 0 <= j < k ==> parts_from((#[trigger] entries[j]).0, ws),
    ensures
        ({
            let written = entries[k].1;
            let kept = if gaps.len() == ws.len() && !(written.len() > 0 && written.last() == '\n') {
                seq![gaps.last()]
            } else {
                seq![]
            };
            phrases::marked(uttered(before, ws, after, gaps) + rest, entries) == phrases::flagged(
                written,
                true,
            ) + phrases::flagged(kept, false) + phrases::marked(rest, entries)
        }),
{
    let all = uttered(before, ws, after, gaps) + rest;
    let ps = pieces(before, ws, after, gaps);
    let toks = phrases::tokens(all);
    let n = ws.len() as int;
    lemma_tokens_uttered(before, ws, after, gaps, rest);
    let bares = phrases::bare_all(toks);
    assert forall|i: int| 0 <= i < n implies #[trigger] bares[i] == chars::lower(ws[i]) by {
        assert(toks[i] == ps[i]);
        let space = if i < gaps.len() {
            seq![gaps[i]]
        } else {
            seq![]
        };
        assert(ws[i].len() > 0);
        law_punctuation_does_not_hide_a_word(before[i], ws[i], after[i], space);
    }
    let from = words::words(entries[k].0);
    assert(bares.subrange(0, n) =~= from);
    assert(phrases::phrase_at(bares, 0, entries[k].0));
    phrases::lemma_first_phrase(bares, 0, entries, 0);
    let f = phrases::first_phrase(bares, 0, entries, 0);
    if f < k {
        let other = words::words(entries[f].0);
        assert(parts_from(entries[f].0, ws));
        let i = choose|i: int|
            0 <= i < ws.len() && i < other.len() && other[i] != chars::lower(#[trigger] ws[i]);
        assert(bares.subrange(0, other.len() as int)[i] == bares[i]);
    }
    assert(f == k);
    lemma_replaced_shift(toks, entries, n, 0);
    assert(toks.skip(n) =~= phrases::tokens(rest));
    let last = toks[n - 1];
    assert(last == ps[n - 1]);
    if gaps.len() == n {
        assert(last.last() == gaps.last());
        assert(chars::whitespace(gaps[n - 1]));
    } else {
        let t = before[n - 1] + ws[n - 1] + after[n - 1];
        lemma_no_space_in(before[n - 1], ws[n - 1], after[n - 1]);
        assert(last =~= t);
        assert(ws[n - 1].len() > 0);
        assert(t[t.len() - 1] == last.last());
    }
}

/// A word that no entry begins with stays as it was said, with the punctuation around it
/// and the white space behind it. What follows is dealt with on its own.
pub proof fn law_other_words_stay(
    entries: Seq<(Seq<char>, Seq<char>)>,
    before: Seq<char>,
    w: Seq<char>,
    after: Seq<char>,
    gap: char,
    rest: Seq<char>,
)
    requires
        punctuation(before),
        plain_word(w),
        punctuation(after),
        chars::whitespace(gap),
        forall|j: int|
            0 <= j < entries.len() && words::words((#[trigger] entries[j]).0).len() > 0
                ==> words::words(entries[j].0)[0] != chars::lower(w),
    ensures
        ({
            let said = before + w + after;
            &&& phrases::marked(said.push(gap) + rest, entries) == phrases::flagged(
                said.push(gap),
                false,
            ) + phrases::marked(rest, entries)
            &&& phrases::marked(said, entries) == phrases::flagged(said, false)
        }),
{
    let t = before + w + after;
    let all = t.push(gap) + rest;
    lemma_no_space_in(before, w, after);
    lemma_first_token(t, gap, rest);
    let toks = phrases::tokens(all);
    law_punctuation_does_not_hide_a_word(before, w, after, seq![gap]);
    assert(t + seq![gap] =~= t.push(gap));
    lemma_no_entry(toks, entries, chars::lower(w));
    lemma_replaced_shift(toks, entries, 1, 0);
    assert(toks.skip(1) =~= phrases::tokens(rest));
    if t.len() > 0 {
        lemma_only_token(t);
        let one = phrases::tokens(t);
        law_punctuation_does_not_hide_a_word(before, w, after, seq![]);
        assert(t + Seq::<char>::empty() =~= t);
        lemma_no_entry(one, entries, chars::lower(w));
        assert(phrases::replaced(one, entries, 1) =~= seq![]);
        assert(phrases::marked(t, entries) =~= phrases::flagged(t, false));
    } else {
        assert(phrases::marked(t, entries) =~= phrases::flagged(t, false));
    }
}

proof fn lemma_no_entry(
    toks: Seq<Seq<char>>,
    entries: Seq<(Seq<char>, Seq<char>)>,
    heard: Seq<char>,
)
    requires
        toks.len() > 0,
        phrases::bare(toks[0]) == heard,
        forall|j: int|
            0 <= j < entries.len() && words::words((#[trigger] entries[j]).0).len() > 0
                ==> words::words(entries[j].0)[0] != heard,
    ensures
        phrases::replaced(toks, entries, 0) == phrases::flagged(toks[0], false)
            + phrases::replaced(toks, entries, 1),
{
    let bares = phrases::bare_all(toks);
    assert(bares[0] == heard);
    phrases::lemma_first_phrase(bares, 0, entries, 0);
    let f = phrases::first_phrase(bares, 0, entries, 0);
    if f < entries.len() {
        let other = words::words(entries[f].0);
        assert(bares.subrange(0, other.len() as int)[0] == bares[0]);
    }
}

/// The same holds of the text itself, where what was put in is not marked: that is how the
/// spoken commands are carried out.
pub proof fn law_phrase_is_replaced(
    entries: Seq<(Seq<char>, Seq<char>)>,
    k: int,
    before: Seq<Seq<char>>,
    ws: Seq<Seq<char>>,
    after: Seq<Seq<char>>,
    gaps: Seq<char>,
    rest: Seq<char>,
)
    requires
        well_uttered(before, ws, after, gaps, rest),
        ws.len() > 0,
        0 <= k < entries.len(),
        words::words(entries[k].0) == ws.map_values(|w: Seq<char>| chars::lower(w)),
        forall|j: int| 0 <= j < k ==> parts_from((#[trigger] entries[j]).0, ws),
    ensures
        phrases::phrased(uttered(before, ws, after, gaps) + rest, entries) == entries[k].1 + (
        if gaps.len() == ws.len() && !(entries[k].1.len() > 0 && entries[k].1.last() == '\n') {
            seq![gaps.last()]
        } else {
            seq![]
        }) + phrases::phrased(rest, entries),
{
    law_entry_is_applied(entries, k, before, ws, after, gaps, rest);
    let written = entries[k].1;
    let kept = if gaps.len() == ws.len() && !(written.len() > 0 && written.last() == '\n') {
        seq![gaps.last()]
    } else {
        seq![]
    };
    assert(phrases::phrased(uttered(before, ws, after, gaps) + rest, entries) =~= written + kept
        + phrases::phrased(rest, entries));
}

/// A word that no phrase begins with stays in the text as well.
pub proof fn law_other_words_stay_in_the_text(
    entries: Seq<(Seq<char>, Seq<char>)>,
    before: Seq<char>,
    w: Seq<char>,
    after: Seq<char>,
    gap: char,
    rest: Seq<char>,
)
    requires
        punctuation(before),
        plain_word(w),
        punctuation(after),
        chars::whitespace(gap),
        forall|j: int|
            0 <= j < entries.len() && words::words((#[trigger] entries[j]).0).len() > 0
                ==> words::words(entries[j].0)[0] != chars::lower(w),
    ensures
        phrases::phrased((before + w + after).push(gap) + rest, entries) == (before + w
            + after).push(gap) + phrases::phrased(rest, entries),
        phrases::phrased(before + w + after, entries) == before + w + after,
        phrases::phrased(Seq::empty(), entries) == Seq::<char>::empty(),
{
    law_other_words_stay(entries, before, w, after, gap, rest);
    law_nothing_said_nothing_replaced(entries);
    let said = before + w + after;
    assert(phrases::phrased(said.push(gap) + rest, entries) =~= said.push(gap) + phrases::phrased(
        rest,
        entries,
    ));
    assert(phrases::phrased(said, entries) =~= said);
}

/// Nothing is made of nothing.
pub proof fn law_nothing_said_nothing_replaced(entries: Seq<(Seq<char>, Seq<char>)>)
    ensures
        phrases::marked(Seq::empty(), entries) == Seq::<(char, bool)>::empty(),
{
}

/// The entries of a dictionary are tried as they were entered, spoken forms in lower case
/// and written forms as they are: none is lost, none is added, and one with more words is
/// tried before one with fewer.
pub proof fn law_every_entry_is_tried(entries: Seq<(Seq<char>, Seq<char>)>, i: int, j: int)
    ensures
        ({
            let tried = crate::format::longest_first(crate::format::lowered(entries));
            &&& tried.to_multiset() == entries.map_values(
                |e: (Seq<char>, Seq<char>)| (chars::lower(e.0), e.1),
            ).to_multiset()
            &&& 0 <= i <= j < tried.len() ==> words::words(tried[i].0).len() >= words::words(
                tried[j].0,
            ).len()
        }),
{
    let low = crate::format::lowered(entries);
    crate::format::law_longest_first(low, 0);
    assert(low =~= entries.map_values(|e: (Seq<char>, Seq<char>)| (chars::lower(e.0), e.1)));
    let tried = crate::format::longest_first(low);
    if 0 <= i <= j < tried.len() {
        assert(crate::format::word_count(tried[i].0) >= crate::format::word_count(tried[j].0));
    }
}

} // verus!
