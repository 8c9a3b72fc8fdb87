//! What gaps and capitals are set, character by character, and what each switch of the
//! formatter changes.

use vstd::prelude::*;
use crate::chars;
use crate::phrases;
use crate::words;
use crate::words_laws;

verus! {

// ---- gaps -----------------------------------------------------------------------------

proof fn lemma_last_set(m: phrases::Marked)
    ensures
        crate::format::last_kept(m) is None <==> crate::format::marked_spaced(m).len() == 0,
        crate::format::last_kept(m) is Some ==> crate::format::marked_spaced(m).last()
            == crate::format::last_kept(m)->0,
    decreases m.len(),
{
    if m.len() > 0 {
        lemma_last_set(m.drop_last());
    }
}

/// What one more character does to spaced text, with `set` the text before it. A space or
/// a tab that was said is held back. Otherwise the character is put behind, after one space
/// where a gap was said and neither a line break stands before it nor the character is one
/// of `. , ! ? ; : )` or a line break; where none was said there is a space only between
/// one of `. , ! ? ; :` and a letter or a number. Nothing is parted inside a written form.
pub proof fn law_gaps_are_set(m: phrases::Marked, x: (char, bool))
    ensures
        ({
            let set = crate::format::marked_spaced(m);
            let more = crate::format::marked_spaced(m.push(x));
            let said = m.len() > 0 && !m.last().1 && (m.last().0 == ' ' || m.last().0 == '\t');
            let p = set.last().0;
            let c = x.0;
            if !x.1 && (c == ' ' || c == '\t') {
                more == set
            } else if set.len() == 0 {
                more == seq![x]
            } else if p != '\n' && c != '.' && c != ',' && c != '!' && c != '?' && c != ';' && c
                != ':' && c != ')' && c != '\n' && (said || ((p == '.' || p == ',' || p == '!' || p
                == '?' || p == ';' || p == ':') && chars::alphanumeric(c) && !(set.last().1
                && x.1))) {
                more == set.push((' ', false)).push(x)
            } else {
                more == set.push(x)
            }
        }),
{
    lemma_last_set(m);
    assert(m.push(x).drop_last() =~= m);
    if crate::format::marked_spaced(m).len() == 0 {
        assert(crate::format::marked_spaced(m) =~= seq![]);
        assert(crate::format::marked_spaced(m).push(x) =~= seq![x]);
    }
}

/// Of nothing spacing makes nothing.
pub proof fn law_gaps_of_nothing()
    ensures
        crate::format::marked_spaced(Seq::empty()) == Seq::<(char, bool)>::empty(),
{
}

// ---- capitals -------------------------------------------------------------------------

/// The same of a text without written forms: a space or a tab is held back, and another
/// character comes behind, after one space where there has to be a gap.
pub proof fn law_gaps_of_plain_text(s: Seq<char>, c: char)
    ensures
        ({
            let set = crate::format::spaced(s);
            let more = crate::format::spaced(s.push(c));
            let said = s.len() > 0 && (s.last() == ' ' || s.last() == '\t');
            let p = set.last();
            if c == ' ' || c == '\t' {
                more == set
            } else if set.len() == 0 {
                more == seq![c]
            } else if p != '\n' && c != '.' && c != ',' && c != '!' && c != '?' && c != ';' && c
                != ':' && c != ')' && c != '\n' && (said || ((p == '.' || p == ',' || p == '!' || p
                == '?' || p == ';' || p == ':') && chars::alphanumeric(c))) {
                more == set.push(' ').push(c)
            } else {
                more == set.push(c)
            }
        }),
        crate::format::spaced(Seq::empty()) == Seq::<char>::empty(),
{
    let m = phrases::flagged(s, false);
    let x = (c, false);
    law_gaps_are_set(m, x);
    assert(m.push(x) =~= phrases::flagged(s.push(c), false));
    crate::format::lemma_plain_spaced(s);
    crate::format::lemma_plain_spaced(s.push(c));
    let set = crate::format::spaced(s);
    let more = crate::format::spaced(s.push(c));
    phrases::lemma_letters(set, false);
    phrases::lemma_letters(more, false);
    let marked = phrases::flagged(set, false);
    assert(phrases::letters(marked) == set);
    assert(phrases::letters(marked.push(x)) =~= set.push(c));
    assert(phrases::letters(marked.push((' ', false)).push(x)) =~= set.push(' ').push(c));
    assert(phrases::letters(seq![x]) =~= seq![c]);
    if set.len() > 0 {
        assert(marked.last() == (set.last(), false));
    }
    if s.len() > 0 {
        assert(m.last() == (s.last(), false));
    }
}

/// A text with capitals set is its characters one behind the other: the first letter of
/// each sentence in upper case, and every other one as it is.
pub proof fn law_capitals_of_plain_text(s: Seq<char>)
    ensures
        crate::format::capitalised(s) == words_laws::chained(
            Seq::new(
                s.len(),
                |i: int|
                    if opens(s, i) {
                        chars::upper(s[i])
                    } else {
                        seq![s[i]]
                    },
            ),
        ),
{
    let m = phrases::flagged(s, false);
    law_capitals_only_where_sentences_begin(m);
    crate::format::lemma_plain_capitalised(s);
    phrases::lemma_letters(s, false);
    phrases::lemma_letters(crate::format::capitalised(s), false);
    let each = Seq::new(
        s.len(),
        |i: int|
            if opens(s, i) {
                chars::upper(s[i])
            } else {
                seq![s[i]]
            },
    );
    let marked = raised(m);
    assert forall|i: int| 0 <= i < s.len() implies phrases::letters(#[trigger] marked[i])
        == each[i] by {
        if opens(s, i) {
            phrases::lemma_letters(chars::upper(s[i]), false);
        } else {
            assert(phrases::letters(seq![m[i]]) =~= seq![s[i]]);
        }
    }
    lemma_letters_of_chained(marked, each);
}

proof fn lemma_letters_of_chained(marked: Seq<phrases::Marked>, each: Seq<Seq<char>>)
    requires
        marked.len() == each.len(),
        forall|i: int| 0 <= i < each.len() ==> phrases::letters(#[trigger] marked[i]) == each[i],
    ensures
        phrases::letters(words_laws::chained(marked)) == words_laws::chained(each),
    decreases each.len(),
{
    if each.len() > 0 {
        let a = marked.drop_last();
        let b = each.drop_last();
        assert forall|i: int| 0 <= i < b.len() implies phrases::letters(#[trigger] a[i])
            == b[i] by {
            assert(a[i] == marked[i]);
        }
        lemma_letters_of_chained(a, b);
        assert(phrases::letters(marked[each.len() - 1]) == each.last());
        assert(phrases::letters(words_laws::chained(a) + marked.last()) =~= phrases::letters(
            words_laws::chained(a),
        ) + phrases::letters(marked.last()));
    } else {
        assert(phrases::letters(words_laws::chained(marked)) =~= words_laws::chained(each));
    }
}

/// The letter at `i` is the first one after the start of the text, or after one of
/// `. ! ?` or a line break.
pub open spec fn opens(s: Seq<char>, i: int) -> bool {
    &&& chars::alphabetic(s[i])
    &&& exists|j: int| #[trigger] ended_at(s, j) && -1 <= j < i && forall|k: int|
        j < k < i ==> !chars::alphabetic(#[trigger] s[k])
}

/// The text starts behind `j`, or the character there ends a sentence.
pub open spec fn ended_at(s: Seq<char>, j: int) -> bool {
    j == -1 || s[j] == '.' || s[j] == '!' || s[j] == '?' || s[j] == '\n'
}

/// Each character of a text as it becomes with capitals set: the first letter of a
/// sentence in upper case unless it stands in a written form, and every other one as it is.
pub open spec fn raised(m: phrases::Marked) -> Seq<phrases::Marked> {
    Seq::new(
        m.len(),
        |i: int|
            if !m[i].1 && opens(phrases::letters(m), i) {
                phrases::flagged(chars::upper(m[i].0), false)
            } else {
                seq![m[i]]
            },
    )
}

proof fn lemma_at_start(s: Seq<char>)
    ensures
        crate::format::at_start(s) <==> exists|j: int| #[trigger] ended_at(s, j) && -1 <= j < s.len()
            && forall|k: int| j < k < s.len() ==> !chars::alphabetic(#[trigger] s[k]),
    decreases s.len(),
{
    if s.len() == 0 {
        assert(ended_at(s, -1));
    } else {
        let n = s.len() - 1;
        let p = s.drop_last();
        lemma_at_start(p);
        if s[n] == '.' || s[n] == '!' || s[n] == '?' || s[n] == '\n' {
            assert(ended_at(s, n));
        } else if chars::alphabetic(s[n]) {
            if exists|j: int| #[trigger] ended_at(s, j) && -1 <= j < s.len() && forall|k: int|
                j < k < s.len() ==> !chars::alphabetic(#[trigger] s[k]) {
                let j = choose|j: int| #[trigger] ended_at(s, j) && -1 <= j < s.len()
                    && forall|k: int| j < k < s.len() ==> !chars::alphabetic(#[trigger] s[k]);
                assert(j < n);
                assert(!chars::alphabetic(s[n]));
            }
        } else {
            if crate::format::at_start(p) {
                let j = choose|j: int| #[trigger] ended_at(p, j) && -1 <= j < p.len()
                    && forall|k: int| j < k < p.len() ==> !chars::alphabetic(#[trigger] p[k]);
                assert(ended_at(s, j));
                assert forall|k: int| j < k < s.len() implies !chars::alphabetic(#[trigger] s[k]) by {
                    if k < n {
                        assert(p[k] == s[k]);
                    }
                }
            }
            if exists|j: int| #[trigger] ended_at(s, j) && -1 <= j < s.len() && forall|k: int|
                j < k < s.len() ==> !chars::alphabetic(#[trigger] s[k]) {
                let j = choose|j: int| #[trigger] ended_at(s, j) && -1 <= j < s.len()
                    && forall|k: int| j < k < s.len() ==> !chars::alphabetic(#[trigger] s[k]);
                assert(j < n);
                assert(ended_at(p, j));
                assert forall|k: int| j < k < p.len() implies !chars::alphabetic(#[trigger] p[k]) by {
                    assert(p[k] == s[k]);
                }
            }
        }
    }
}

proof fn lemma_opens_prefix(s: Seq<char>, t: Seq<char>, i: int)
    requires
        0 <= i < s.len() <= t.len(),
        t.take(s.len() as int) == s,
    ensures
        opens(s, i) == opens(t, i),
{
    assert forall|k: int| 0 <= k < s.len() implies s[k] == #[trigger] t[k] by {
        assert(t.take(s.len() as int)[k] == t[k]);
    }
    if opens(s, i) {
        let j = choose|j: int| #[trigger] ended_at(s, j) && -1 <= j < i && forall|k: int|
            j < k < i ==> !chars::alphabetic(#[trigger] s[k]);
        assert(ended_at(t, j));
    }
    if opens(t, i) {
        let j = choose|j: int| #[trigger] ended_at(t, j) && -1 <= j < i && forall|k: int|
            j < k < i ==> !chars::alphabetic(#[trigger] t[k]);
        assert(ended_at(s, j));
    }
}

/// Only the first letters of sentences are put in upper case, and all of them are: every
/// other character, and every written form, stands in the result as it was.
pub proof fn law_capitals_only_where_sentences_begin(m: phrases::Marked)
    ensures
        crate::format::marked_capitalised(m) == words_laws::chained(raised(m)),
    decreases m.len(),
{
    if m.len() > 0 {
        let p = m.drop_last();
        let n = m.len() - 1;
        law_capitals_only_where_sentences_begin(p);
        let s = phrases::letters(m);
        let t = phrases::letters(p);
        assert(s.take(n) =~= t);
        assert(raised(m).drop_last() =~= raised(p)) by {
            assert forall|i: int| 0 <= i < n implies raised(m)[i] == raised(p)[i] by {
                lemma_opens_prefix(t, s, i);
            }
        }
        lemma_at_start(t);
        if crate::format::at_start(t) && chars::alphabetic(s[n]) {
            let j = choose|j: int| #[trigger] ended_at(t, j) && -1 <= j < t.len() && forall|k: int|
                j < k < t.len() ==> !chars::alphabetic(#[trigger] t[k]);
            assert(ended_at(s, j));
            assert forall|k: int| j < k < n implies !chars::alphabetic(#[trigger] s[k]) by {
                assert(t[k] == s[k]);
            }
            assert(opens(s, n));
        }
        if opens(s, n) {
            let j = choose|j: int| #[trigger] ended_at(s, j) && -1 <= j < n && forall|k: int|
                j < k < n ==> !chars::alphabetic(#[trigger] s[k]);
            assert(ended_at(t, j));
            assert forall|k: int| j < k < t.len() implies !chars::alphabetic(#[trigger] t[k]) by {
                assert(t[k] == s[k]);
            }
        }
        assert(crate::format::marked_capitalised(m) =~= words_laws::chained(raised(m)));
    } else {
        assert(raised(m) =~= seq![]);
    }
}

/// A letter inside a word keeps its case, whatever marks stand in the word: with a letter
/// before it and no `. ! ?` or line break in between it does not begin a sentence.
pub proof fn law_letters_inside_words_keep_their_case(s: Seq<char>, i: int, k: int)
    requires
        0 <= i < k < s.len(),
        chars::alphabetic(s[i]),
        forall|j: int|
            i < j < k ==> #[trigger] s[j] != '.' && s[j] != '!' && s[j] != '?' && s[j] != '\n',
    ensures
        !opens(s, k),
        raised(phrases::flagged(s, false))[k] == phrases::flagged(seq![s[k]], false),
{
    let m = phrases::flagged(s, false);
    phrases::lemma_letters(s, false);
    words_laws::lemma_enders_are_no_letters(s[i]);
    if opens(s, k) {
        let j = choose|j: int| #[trigger] ended_at(s, j) && -1 <= j < k && forall|l: int|
            j < l < k ==> !chars::alphabetic(#[trigger] s[l]);
        if j < i {
            assert(!chars::alphabetic(s[i]));
        } else if j > i {
            assert(s[j] != '.');
        }
    }
    assert(raised(m)[k] =~= phrases::flagged(seq![s[k]], false));
}

// ---- the switches ---------------------------------------------------------------------

/// With the trailing space off, the text is left as it was set: the spoken commands are
/// carried out where that is switched on, then the dictionary is applied, then the gaps are
/// set, and then the capitals where those are switched on. Nothing is inserted for silence.
pub proof fn law_what_is_set(
    raw: Seq<char>,
    replacements: Seq<(Seq<char>, Seq<char>)>,
    capitals: bool,
    punctuation: bool,
)
    ensures
        words::trim(raw).len() == 0 ==> crate::format::formatted(
            raw,
            replacements,
            capitals,
            punctuation,
            false,
        ).len() == 0,
        words::trim(raw).len() > 0 ==> {
            let said = if punctuation {
                phrases::phrased(words::trim(raw), crate::format::commands())
            } else {
                words::trim(raw)
            };
            let set = crate::format::marked_spaced(
                if replacements.len() == 0 {
                    phrases::flagged(said, false)
                } else {
                    phrases::marked(said, replacements)
                },
            );
            crate::format::formatted(raw, replacements, capitals, punctuation, false)
                == phrases::letters(
                if capitals {
                    words_laws::chained(raised(set))
                } else {
                    set
                },
            )
        },
{
    law_capitals_only_where_sentences_begin(
        crate::format::marked_spaced(crate::format::corrected(raw, replacements, punctuation)),
    );
}

/// The trailing space adds one space, unless the text already ends in one or in a line
/// break, or nothing was said; it changes nothing else.
pub proof fn law_trailing_space_is_one_space(
    raw: Seq<char>,
    replacements: Seq<(Seq<char>, Seq<char>)>,
    capitals: bool,
    punctuation: bool,
)
    ensures
        ({
            let off = crate::format::formatted(raw, replacements, capitals, punctuation, false);
            let on = crate::format::formatted(raw, replacements, capitals, punctuation, true);
            if words::trim(raw).len() == 0 || (off.len() > 0 && (off.last() == ' ' || off.last()
                == '\n')) {
                on == off
            } else {
                on == off.push(' ')
            }
        }),
{
}

/// With every switch off and no dictionary, a text changes only in its spaces and tabs.
pub proof fn law_plain_text_keeps_its_characters(raw: Seq<char>)
    ensures
        crate::format::formatted(raw, Seq::empty(), false, false, false).filter(
            |c: char| c != ' ' && c != '\t',
        ) == words::trim(raw).filter(|c: char| c != ' ' && c != '\t'),
{
    let t = words::trim(raw);
    let m = phrases::flagged(t, false);
    let f = |c: char| c != ' ' && c != '\t';
    lemma_solid_kept(m);
    phrases::lemma_letters(t, false);
    if t.len() == 0 {
        assert(t =~= seq![]);
        reveal(Seq::filter);
        assert(crate::format::formatted(raw, Seq::empty(), false, false, false) =~= seq![]);
    }
}

proof fn lemma_solid_kept(m: phrases::Marked)
    ensures
        phrases::letters(crate::format::marked_spaced(m)).filter(|c: char| c != ' ' && c != '\t')
            == phrases::letters(m).filter(|c: char| c != ' ' && c != '\t'),
    decreases m.len(),
{
    let f = |c: char| c != ' ' && c != '\t';
    let l = phrases::letters(m);
    if m.len() > 0 {
        let before = m.drop_last();
        lemma_solid_kept(before);
        let x = m.last();
        let p = phrases::letters(crate::format::marked_spaced(before));
        let o = phrases::letters(crate::format::marked_spaced(m));
        assert(l =~= phrases::letters(before).push(x.0));
        lemma_filter_push(phrases::letters(before), x.0);
        law_gaps_are_set(before, x);
        assert(before.push(x) =~= m);
        if !x.1 && (x.0 == ' ' || x.0 == '\t') {
            assert(o == p);
        } else {
            lemma_filter_push(p, x.0);
            lemma_filter_push(p, ' ');
            lemma_filter_push(p.push(' '), x.0);
            if o.len() == p.len() + 1 {
                assert(o =~= p.push(x.0));
            } else {
                assert(o =~= p.push(' ').push(x.0));
            }
        }
    } else {
        assert(l =~= phrases::letters(crate::format::marked_spaced(m)));
    }
}

proof fn lemma_filter_push(s: Seq<char>, c: char)
    ensures
        s.push(c).filter(|c: char| c != ' ' && c != '\t') == if c != ' ' && c != '\t' {
            s.filter(|c: char| c != ' ' && c != '\t').push(c)
        } else {
            s.filter(|c: char| c != ' ' && c != '\t')
        },
{
    reveal(Seq::filter);
    assert(s.push(c).drop_last() =~= s);
}

/// The fifteen spoken commands and what each of them writes. One that holds another comes
/// before it.
pub proof fn law_spoken_commands()
    ensures
        crate::format::commands() == seq![
            ("new paragraph"@, "\n\n"@),
            ("new line"@, "\n"@),
            ("full stop"@, "."@),
            ("question mark"@, "?"@),
            ("exclamation mark"@, "!"@),
            ("open bracket"@, "("@),
            ("close bracket"@, ")"@),
            ("open quote"@, "\""@),
            ("close quote"@, "\""@),
            ("semicolon"@, ";"@),
            ("colon"@, ":"@),
            ("comma"@, ","@),
            ("period"@, "."@),
            ("dash"@, ","@),
            ("hyphen"@, "-"@),
        ],
{
    assert(crate::format::commands() =~= seq![
        ("new paragraph"@, "\n\n"@),
        ("new line"@, "\n"@),
        ("full stop"@, "."@),
        ("question mark"@, "?"@),
        ("exclamation mark"@, "!"@),
        ("open bracket"@, "("@),
        ("close bracket"@, ")"@),
        ("open quote"@, "\""@),
        ("close quote"@, "\""@),
        ("semicolon"@, ";"@),
        ("colon"@, ":"@),
        ("comma"@, ","@),
        ("period"@, "."@),
        ("dash"@, ","@),
        ("hyphen"@, "-"@),
    ]);
}

} // verus!
