//! What holds of formatted text, whatever was said.

use vstd::prelude::*;
use crate::chars;
use crate::format::Formatter;
use crate::phrases;
use crate::words;
use crate::words::Class;

verus! {

/// Text is tidy: no tab; every space stands alone between two characters,
/// neither at an end of the text nor beside a line break nor before a closing
/// mark; and a mark is never followed directly by a letter or a number.
pub open spec fn tidy(o: Seq<char>) -> bool {
    &&& forall|i: int| 0 <= i < o.len() ==> #[trigger] o[i] != '\t'
    &&& forall|i: int|
        0 <= i < o.len() && #[trigger] o[i] == ' ' ==> {
            &&& 0 < i < o.len() - 1
            &&& !crate::format::blank(o[i - 1])
            &&& o[i - 1] != '\n'
            &&& !crate::format::blank(o[i + 1])
            &&& !crate::format::closes(o[i + 1])
        }
    &&& forall|i: int|
        0 <= i < o.len() - 1 && crate::format::mark(#[trigger] o[i]) ==> !chars::alphanumeric(o[i + 1])
}

proof fn lemma_spaced_end(s: Seq<char>)
    ensures
        crate::format::last_solid(s) is None ==> crate::format::spaced(s).len() == 0,
        crate::format::last_solid(s) is Some ==> crate::format::spaced(s).len() > 0 && crate::format::spaced(s).last()
            == crate::format::last_solid(s)->0 && !crate::format::blank(crate::format::last_solid(s)->0),
        s.len() > 0 && !crate::format::blank(s.last()) ==> crate::format::last_solid(s) == Some(s.last()),
    decreases s.len(),
{
    if s.len() > 0 {
        lemma_spaced_end(s.drop_last());
    }
}

/// Spacing leaves tidy text: punctuation hugs the word before it, one space
/// stands after it, and none before a line break.
pub proof fn law_spacing_tidy(s: Seq<char>)
    ensures
        tidy(crate::format::spaced(s)),
    decreases s.len(),
{
    if s.len() > 0 {
        let before = s.drop_last();
        let c = s.last();
        law_spacing_tidy(before);
        lemma_spaced_end(before);
        let o = crate::format::spaced(s);
        let p = crate::format::spaced(before);
        if !crate::format::blank(c) {
            let n = p.len() as int;
            assert forall|i: int| 0 <= i < o.len() && #[trigger] o[i] == ' ' implies {
                &&& 0 < i < o.len() - 1
                &&& !crate::format::blank(o[i - 1])
                &&& o[i - 1] != '\n'
                &&& !crate::format::blank(o[i + 1])
                &&& !crate::format::closes(o[i + 1])
            } by {
                if i < n {
                    assert(p[i] == ' ');
                    assert(o[i - 1] == p[i - 1]);
                    assert(o[i + 1] == p[i + 1]);
                } else {
                    assert(crate::format::gap(before, c));
                    assert(o[n - 1] == p.last());
                }
            }
            assert forall|i: int|
                0 <= i < o.len() - 1 && crate::format::mark(
                    #[trigger] o[i],
                ) implies !chars::alphanumeric(o[i + 1]) by {
                if i < n - 1 {
                    assert(crate::format::mark(p[i]));
                    assert(o[i + 1] == p[i + 1]);
                } else if i == n - 1 {
                    assert(o[i] == p.last());
                    assert(crate::format::last_solid(before) == Some(o[i]));
                    assert(o[i] != '\n');
                    if !crate::format::gap(before, c) && crate::format::closes(c) {
                        assert(!chars::alphanumeric(c));
                    }
                }
            }
        }
    }
}

/// Spacing keeps every character that is not blank, in order.
pub proof fn law_spacing_keeps_words(s: Seq<char>)
    ensures
        crate::format::spaced(s).filter(|c: char| !crate::format::blank(c)) == s.filter(
            |c: char| !crate::format::blank(c),
        ),
    decreases s.len(),
{
    let solid = |c: char| !crate::format::blank(c);
    reveal(Seq::filter);
    if s.len() > 0 {
        let before = s.drop_last();
        let c = s.last();
        law_spacing_keeps_words(before);
        let p = crate::format::spaced(before);
        assert(s.filter(solid) == if solid(c) {
            before.filter(solid).push(c)
        } else {
            before.filter(solid)
        });
        if !crate::format::blank(c) {
            if crate::format::gap(before, c) {
                assert(p.push(' ').push(c).drop_last() =~= p.push(' '));
                assert(p.push(' ').drop_last() =~= p);
                assert(p.push(' ').filter(solid) == p.filter(solid));
                assert(p.push(' ').push(c).filter(solid) == p.filter(solid).push(c));
            } else {
                assert(p.push(c).drop_last() =~= p);
                assert(p.push(c).filter(solid) == p.filter(solid).push(c));
            }
        }
    } else {
        assert(s =~= crate::format::spaced(s));
    }
}

proof fn lemma_tidy_prefix(o: Seq<char>)
    requires
        tidy(o),
        o.len() > 0,
        o.len() > 1 ==> !crate::format::blank(o[o.len() - 2]),
    ensures
        tidy(o.drop_last()),
{
    let p = o.drop_last();
    assert forall|i: int| 0 <= i < p.len() implies #[trigger] p[i] != '\t' by {
        assert(o[i] != '\t');
    }
    assert forall|i: int| 0 <= i < p.len() && #[trigger] p[i] == ' ' implies {
        &&& 0 < i < p.len() - 1
        &&& !crate::format::blank(p[i - 1])
        &&& p[i - 1] != '\n'
        &&& !crate::format::blank(p[i + 1])
        &&& !crate::format::closes(p[i + 1])
    } by {
        assert(o[i] == ' ');
    }
    assert forall|i: int| 0 <= i < p.len() - 1 && crate::format::mark(#[trigger] p[i]) implies
        !chars::alphanumeric(p[i + 1]) by {
        assert(crate::format::mark(o[i]));
    }
}

/// Text that is tidy stays as it is.
pub proof fn law_spacing_leaves_tidy_text(o: Seq<char>)
    requires
        tidy(o),
    ensures
        crate::format::spaced(o) == o,
    decreases o.len(),
{
    if o.len() > 0 {
        let c = o.last();
        let p = o.drop_last();
        assert(o[o.len() - 1] == c);
        assert(!crate::format::blank(c));
        if p.len() > 0 && crate::format::blank(p.last()) {
            let q = p.drop_last();
            assert(o[o.len() - 2] == p.last());
            assert(o[o.len() - 3] == q.last());
            assert(crate::format::last_solid(p) == crate::format::last_solid(q));
            assert(crate::format::last_solid(q) == Some(q.last()));
            assert(crate::format::gap(p, c));
            if q.len() > 1 {
                assert(o[q.len() - 2] == q[q.len() - 2]);
                if crate::format::blank(q[q.len() - 2]) {
                    assert(o[q.len() - 2] == ' ');
                }
            }
            assert(tidy(q)) by {
                assert forall|i: int| 0 <= i < q.len() implies #[trigger] q[i] != '\t' by {
                    assert(o[i] != '\t');
                }
                assert forall|i: int| 0 <= i < q.len() && #[trigger] q[i] == ' ' implies {
                    &&& 0 < i < q.len() - 1
                    &&& !crate::format::blank(q[i - 1])
                    &&& q[i - 1] != '\n'
                    &&& !crate::format::blank(q[i + 1])
                    &&& !crate::format::closes(q[i + 1])
                } by {
                    assert(o[i] == ' ');
                    if i == q.len() - 1 {
                        assert(o[i + 1] == ' ');
                    }
                }
                assert forall|i: int|
                    0 <= i < q.len() - 1 && crate::format::mark(
                        #[trigger] q[i],
                    ) implies !chars::alphanumeric(q[i + 1]) by {
                    assert(crate::format::mark(o[i]));
                }
            }
            law_spacing_leaves_tidy_text(q);
            assert(crate::format::spaced(p) == crate::format::spaced(q));
            assert(p.last() == ' ');
            assert(o =~= q.push(' ').push(c));
        } else {
            if p.len() > 0 {
                assert(o[o.len() - 2] == p.last());
                assert(crate::format::last_solid(p) == Some(p.last()));
                if crate::format::mark(p.last()) {
                    assert(!chars::alphanumeric(o[o.len() - 2 + 1]));
                }
            }
            assert(!crate::format::gap(p, c));
            lemma_tidy_prefix(o);
            law_spacing_leaves_tidy_text(p);
            assert(o =~= p.push(c));
        }
    }
}

/// Spacing a second time changes nothing.
pub proof fn law_spacing_settles(s: Seq<char>)
    ensures
        crate::format::spaced(crate::format::spaced(s)) == crate::format::spaced(s),
{
    law_spacing_tidy(s);
    law_spacing_leaves_tidy_text(crate::format::spaced(s));
}

/// A text whose sentences already begin with letters that are their own upper
/// case is left alone, so that capitals that are there survive.
pub proof fn law_capitals_survive(s: Seq<char>)
    requires
        forall|i: int|
            0 <= i < s.len() && crate::format::at_start(s.take(i)) && chars::alphabetic(#[trigger] s[i])
                ==> chars::upper(s[i]) == seq![s[i]],
    ensures
        crate::format::capitalised(s) == s,
    decreases s.len(),
{
    if s.len() > 0 {
        let p = s.drop_last();
        let n = s.len() - 1;
        assert forall|i: int|
            0 <= i < p.len() && crate::format::at_start(p.take(i)) && chars::alphabetic(
                #[trigger] p[i],
            ) implies chars::upper(p[i]) == seq![p[i]] by {
            assert(p.take(i) =~= s.take(i));
            assert(p[i] == s[i]);
        }
        law_capitals_survive(p);
        assert(s.take(n) =~= p);
        assert(s[n] == s.last());
        assert(p + seq![s.last()] =~= s);
        assert(p.push(s.last()) =~= s);
    }
}

proof fn lemma_trim_all(s: Seq<char>, class: Class)
    requires
        forall|i: int| 0 <= i < s.len() ==> class.has(#[trigger] s[i]),
    ensures
        words::trim_left(s, class).len() == 0,
    decreases s.len(),
{
    if s.len() > 0 {
        assert forall|i: int| 0 <= i < s.drop_first().len() implies class.has(
            #[trigger] s.drop_first()[i],
        ) by {
            assert(class.has(s[i + 1]));
        }
        assert(class.has(s[0]));
        lemma_trim_all(s.drop_first(), class);
    }
}

/// Nothing but white space becomes nothing at all, whatever the settings.
pub proof fn law_silence_is_empty(f: Formatter, raw: Seq<char>)
    requires
        forall|i: int| 0 <= i < raw.len() ==> chars::whitespace(#[trigger] raw[i]),
    ensures
        f.result(raw) == Seq::<char>::empty(),
{
    assert forall|i: int| 0 <= i < raw.len() implies Class::Whitespace.has(#[trigger] raw[i]) by {
        assert(chars::whitespace(raw[i]));
    }
    lemma_trim_all(raw, Class::Whitespace);
}

/// With the trailing space on, whatever is inserted ends in a space or a line
/// break, so that the next dictation does not run into it.
pub proof fn law_trailing_space(f: Formatter, raw: Seq<char>)
    requires
        f.trailing_space,
    ensures
        f.result(raw).len() > 0 ==> f.result(raw).last() == ' ' || f.result(raw).last() == '\n',
{
}

/// Among replacements ordered by falling number of words, the one that is
/// taken at a position has at least as many words as any other that fits there.
pub proof fn law_longest_match_wins(
    bares: Seq<Seq<char>>,
    i: int,
    ps: Seq<(Seq<char>, Seq<char>)>,
    j: int,
)
    requires
        crate::format::falling(ps),
        0 <= j < ps.len(),
        phrases::phrase_at(bares, i, ps[j].0),
    ensures
        0 <= phrases::first_phrase(bares, i, ps, 0) < ps.len(),
        crate::format::word_count(ps[phrases::first_phrase(bares, i, ps, 0)].0) >= crate::format::word_count(
            ps[j].0,
        ),
{
    phrases::lemma_first_phrase(bares, i, ps, 0);
    let k = phrases::first_phrase(bares, i, ps, 0);
    if k > j {
        assert(!phrases::phrase_at(bares, i, ps[j].0));
    }
    }

/// The pieces one behind the other.
pub open spec fn concat(pieces: Seq<Seq<char>>, i: int) -> Seq<char>
    decreases pieces.len() - i,
{
    if i < 0 || i >= pieces.len() {
        seq![]
    } else {
        pieces[i] + concat(pieces, i + 1)
    }
}

proof fn lemma_concat_shift(a: Seq<char>, rest: Seq<Seq<char>>, i: int)
    requires
        0 <= i,
    ensures
        concat(seq![a] + rest, i + 1) == concat(rest, i),
    decreases rest.len() - i,
{
    if i < rest.len() {
        lemma_concat_shift(a, rest, i + 1);
        assert((seq![a] + rest)[i + 1] == rest[i]);
    }
}

/// The tokens of a text make up the text.
pub proof fn law_tokens_make_the_text(s: Seq<char>)
    ensures
        concat(phrases::tokens(s), 0) == s,
    decreases s.len(),
{
    let n = words::first_of(s, Class::Whitespace) as int;
    words::lemma_first_of(s, Class::Whitespace);
    if s.len() > 0 {
        if n < s.len() {
            let rest = s.skip(n + 1);
            law_tokens_make_the_text(rest);
            lemma_concat_shift(s.take(n + 1), phrases::tokens(rest), 0);
            assert(phrases::tokens(s)[0] == s.take(n + 1));
            assert(s.take(n + 1) + rest =~= s);
        } else {
            let t = phrases::tokens(s);
            assert(t =~= seq![s]);
            assert(concat(t, 1) =~= seq![]);
            assert(concat(t, 0) =~= s);
        }
    } else {
        assert(s =~= seq![]);
    }
}

proof fn lemma_untouched(toks: Seq<Seq<char>>, ps: Seq<(Seq<char>, Seq<char>)>, i: int)
    requires
        0 <= i <= toks.len(),
        forall|k: int, j: int|
            0 <= k < toks.len() && 0 <= j < ps.len() ==> !#[trigger] phrases::phrase_at(
                phrases::bare_all(toks),
                k,
                ps[j].0,
            ),
    ensures
        phrases::replaced(toks, ps, i) == phrases::flagged(concat(toks, i), false),
    decreases toks.len() - i,
{
    if i < toks.len() {
        let bares = phrases::bare_all(toks);
        phrases::lemma_first_phrase(bares, i, ps, 0);
        let k = phrases::first_phrase(bares, i, ps, 0);
        if k < ps.len() {
            assert(!phrases::phrase_at(bares, i, ps[k].0));
        }
        lemma_untouched(toks, ps, i + 1);
    }
    assert(phrases::replaced(toks, ps, i) =~= phrases::flagged(concat(toks, i), false));
}

/// Where no phrase stands as whole words, the text stays as it is: a longer
/// word that contains a phrase is not touched.
pub proof fn law_whole_phrases_only(s: Seq<char>, ps: Seq<(Seq<char>, Seq<char>)>)
    requires
        forall|k: int, j: int|
            0 <= k < phrases::tokens(s).len() && 0 <= j < ps.len()
                ==> !#[trigger] phrases::phrase_at(
                phrases::bare_all(phrases::tokens(s)),
                k,
                ps[j].0,
            ),
    ensures
        phrases::phrased(s, ps) == s,
        phrases::marked(s, ps) == phrases::flagged(s, false),
{
    lemma_untouched(phrases::tokens(s), ps, 0);
    law_tokens_make_the_text(s);
    phrases::lemma_letters(s, false);
}

// ---- written forms ------------------------------------------------------------------

/// Spacing only adds at the end when text is added at the end.
proof fn lemma_spaced_prefix(m: phrases::Marked, b: phrases::Marked)
    ensures
        marked_spaced_from(m, b) == crate::format::marked_spaced(m + b).skip(
            crate::format::marked_spaced(m).len() as int,
        ),
        crate::format::marked_spaced(m + b) == crate::format::marked_spaced(m)
            + marked_spaced_from(m, b),
    decreases b.len(),
{
    let head = crate::format::marked_spaced(m);
    let all = crate::format::marked_spaced(m + b);
    if b.len() > 0 {
        lemma_spaced_prefix(m, b.drop_last());
        assert((m + b).drop_last() =~= m + b.drop_last());
        assert((m + b).last() == b.last());
        let before = crate::format::marked_spaced(m + b.drop_last());
        assert(before.take(head.len() as int) =~= head);
        assert(all.take(head.len() as int) =~= head);
    } else {
        assert(m + b =~= m);
    }
    assert(all =~= head + all.skip(head.len() as int));
}

/// What spacing makes of text that follows other text.
pub open spec fn marked_spaced_from(m: phrases::Marked, b: phrases::Marked) -> phrases::Marked {
    crate::format::marked_spaced(m + b).skip(crate::format::marked_spaced(m).len() as int)
}

/// Spacing leaves a written form as it is.
proof fn lemma_spaced_form(a: phrases::Marked, w: Seq<char>) -> (x: phrases::Marked)
    ensures
        crate::format::marked_spaced(a + phrases::flagged(w, true)) == x + phrases::flagged(
            w,
            true,
        ),
    decreases w.len(),
{
    let v = phrases::flagged(w, true);
    let all = a + v;
    if w.len() == 0 {
        assert(all =~= a);
        let x = crate::format::marked_spaced(a);
        assert(x + v =~= x);
        x
    } else {
        let u = phrases::flagged(w.drop_last(), true);
        let x = lemma_spaced_form(a, w.drop_last());
        assert(all.drop_last() =~= a + u);
        assert(all.last() == (w.last(), true));
        assert(v =~= u.push((w.last(), true)));
        if w.len() > 1 {
            assert((a + u).last() == u.last());
            assert(u.last().1);
            assert(crate::format::last_kept(a + u) == Some(u.last()));
            assert(!crate::format::marked_gap(a + u, (w.last(), true)));
            assert(crate::format::marked_spaced(all) =~= x + v);
            x
        } else {
            assert(u =~= seq![]);
            let y = if crate::format::marked_gap(a + u, (w.last(), true)) {
                x.push((' ', false))
            } else {
                x
            };
            assert(x + u =~= x);
            assert(crate::format::marked_spaced(all) =~= y + v);
            y
        }
    }
}

/// Capitals leave what comes before as it is, and a written form too.
proof fn lemma_capitalised_prefix(m: phrases::Marked, b: phrases::Marked) -> (y: phrases::Marked)
    ensures
        crate::format::marked_capitalised(m + b) == crate::format::marked_capitalised(m) + y,
    decreases b.len(),
{
    if b.len() == 0 {
        assert(m + b =~= m);
        let y: phrases::Marked = seq![];
        assert(crate::format::marked_capitalised(m) + y =~= crate::format::marked_capitalised(m));
        y
    } else {
        let y = lemma_capitalised_prefix(m, b.drop_last());
        assert((m + b).drop_last() =~= m + b.drop_last());
        assert((m + b).last() == b.last());
        let x = b.last();
        let more = if !x.1 && crate::format::at_start(phrases::letters((m + b).drop_last()))
            && chars::alphabetic(x.0) {
            phrases::flagged(chars::upper(x.0), false)
        } else {
            seq![x]
        };
        assert(crate::format::marked_capitalised(m + b)
            =~= crate::format::marked_capitalised(m) + (y + more));
        y + more
    }
}

proof fn lemma_capitalised_form(a: phrases::Marked, w: Seq<char>)
    ensures
        crate::format::marked_capitalised(a + phrases::flagged(w, true))
            == crate::format::marked_capitalised(a) + phrases::flagged(w, true),
    decreases w.len(),
{
    let v = phrases::flagged(w, true);
    let all = a + v;
    if w.len() == 0 {
        assert(all =~= a);
    } else {
        let u = phrases::flagged(w.drop_last(), true);
        lemma_capitalised_form(a, w.drop_last());
        assert(all.drop_last() =~= a + u);
        assert(all.last() == (w.last(), true));
        assert(v =~= u.push((w.last(), true)));
    }
    assert(crate::format::marked_capitalised(all) =~= crate::format::marked_capitalised(a) + v);
}

/// A text stands somewhere in another, as it is.
pub open spec fn stands_in(w: Seq<char>, s: Seq<char>) -> bool {
    exists|p: int| 0 <= p <= s.len() - w.len() && #[trigger] s.subrange(p, p + w.len()) == w
}

/// A written form stands in the result exactly as it was entered, whatever surrounds
/// it: neither a gap nor a capital is set inside it.
pub proof fn law_written_forms_stand(
    raw: Seq<char>,
    replacements: Seq<(Seq<char>, Seq<char>)>,
    capitals: bool,
    punctuation: bool,
    trailing: bool,
    a: phrases::Marked,
    w: Seq<char>,
    b: phrases::Marked,
)
    requires
        words::trim(raw).len() > 0,
        crate::format::corrected(raw, replacements, punctuation) == a + phrases::flagged(w, true)
            + b,
    ensures
        stands_in(
            w,
            crate::format::formatted(raw, replacements, capitals, punctuation, trailing),
        ),
{
    let v = phrases::flagged(w, true);
    let x = lemma_spaced_form(a, w);
    lemma_spaced_prefix(a + v, b);
    let y = marked_spaced_from(a + v, b);
    let set = crate::format::marked_spaced(a + v + b);
    assert(set == x + v + y);
    let (head, tail, done) = if capitals {
        lemma_capitalised_form(x, w);
        let z = lemma_capitalised_prefix(x + v, y);
        (crate::format::marked_capitalised(x), z, crate::format::marked_capitalised(set))
    } else {
        (x, y, set)
    };
    assert(done == head + v + tail);
    let out = crate::format::formatted(raw, replacements, capitals, punctuation, trailing);
    let p = head.len() as int;
    let n = w.len() as int;
    assert forall|i: int| p <= i < p + n implies #[trigger] out[i] == w[i - p] by {
        assert(done[i] == v[i - p]);
    }
    assert(out.subrange(p, p + n) =~= w);
}

/// The scan for phrases that is at token `from` comes to token `i`.
pub open spec fn reaches(
    toks: Seq<Seq<char>>,
    ps: Seq<(Seq<char>, Seq<char>)>,
    from: int,
    i: int,
) -> bool
    decreases toks.len() - from,
{
    if from < 0 || from >= toks.len() {
        false
    } else if from == i {
        true
    } else {
        let k = phrases::first_phrase(phrases::bare_all(toks), from, ps, 0);
        if 0 <= k < ps.len() && phrases::phrase_at(phrases::bare_all(toks), from, ps[k].0) {
            reaches(toks, ps, from + words::words(ps[k].0).len(), i)
        } else {
            reaches(toks, ps, from + 1, i)
        }
    }
}

proof fn lemma_reached(
    toks: Seq<Seq<char>>,
    ps: Seq<(Seq<char>, Seq<char>)>,
    from: int,
    i: int,
) -> (a: phrases::Marked)
    requires
        reaches(toks, ps, from, i),
    ensures
        phrases::replaced(toks, ps, from) == a + phrases::replaced(toks, ps, i),
    decreases toks.len() - from,
{
    if from == i {
        let a: phrases::Marked = seq![];
        assert(phrases::replaced(toks, ps, from) =~= a + phrases::replaced(toks, ps, i));
        a
    } else {
        let k = phrases::first_phrase(phrases::bare_all(toks), from, ps, 0);
        if 0 <= k < ps.len() && phrases::phrase_at(phrases::bare_all(toks), from, ps[k].0) {
            let n = words::words(ps[k].0).len();
            let head = phrases::flagged(ps[k].1, true) + phrases::flagged(
                phrases::kept_space(toks[from + n - 1], ps[k].1),
                false,
            );
            let a = lemma_reached(toks, ps, from + n, i);
            assert(phrases::replaced(toks, ps, from) =~= (head + a) + phrases::replaced(
                toks,
                ps,
                i,
            ));
            head + a
        } else {
            let head = phrases::flagged(toks[from], false);
            let a = lemma_reached(toks, ps, from + 1, i);
            assert(phrases::replaced(toks, ps, from) =~= (head + a) + phrases::replaced(
                toks,
                ps,
                i,
            ));
            head + a
        }
    }
}

/// Wherever an entry of the dictionary is heard, its right-hand side is written
/// verbatim.
pub proof fn law_entries_are_written_verbatim(
    raw: Seq<char>,
    replacements: Seq<(Seq<char>, Seq<char>)>,
    capitals: bool,
    punctuation: bool,
    trailing: bool,
    i: int,
    k: int,
)
    requires
        words::trim(raw).len() > 0,
        reaches(
            phrases::tokens(crate::format::punctuated(raw, punctuation)),
            replacements,
            0,
            i,
        ),
        k == phrases::first_phrase(
            phrases::bare_all(phrases::tokens(crate::format::punctuated(raw, punctuation))),
            i,
            replacements,
            0,
        ),
        k < replacements.len(),
    ensures
        stands_in(
            replacements[k].1,
            crate::format::formatted(raw, replacements, capitals, punctuation, trailing),
        ),
{
    let toks = phrases::tokens(crate::format::punctuated(raw, punctuation));
    let bares = phrases::bare_all(toks);
    phrases::lemma_first_phrase(bares, i, replacements, 0);
    lemma_reached_within(toks, replacements, 0, i);
    let a = lemma_reached(toks, replacements, 0, i);
    let w = replacements[k].1;
    let n = words::words(replacements[k].0).len();
    let b = phrases::flagged(phrases::kept_space(toks[i + n - 1], w), false) + phrases::replaced(
        toks,
        replacements,
        i + n,
    );
    assert(phrases::replaced(toks, replacements, i) =~= phrases::flagged(w, true) + b);
    assert(crate::format::corrected(raw, replacements, punctuation) =~= a + phrases::flagged(
        w,
        true,
    ) + b);
    law_written_forms_stand(raw, replacements, capitals, punctuation, trailing, a, w, b);
}

proof fn lemma_reached_within(
    toks: Seq<Seq<char>>,
    ps: Seq<(Seq<char>, Seq<char>)>,
    from: int,
    i: int,
)
    requires
        reaches(toks, ps, from, i),
    ensures
        0 <= i < toks.len(),
    decreases toks.len() - from,
{
    if from != i {
        let k = phrases::first_phrase(phrases::bare_all(toks), from, ps, 0);
        if 0 <= k < ps.len() && phrases::phrase_at(phrases::bare_all(toks), from, ps[k].0) {
            lemma_reached_within(toks, ps, from + words::words(ps[k].0).len(), i);
        } else {
            lemma_reached_within(toks, ps, from + 1, i);
        }
    }
}

} // verus!
