//! What holds of a dictionary that is shown as text and read again.

use vstd::prelude::*;
use crate::chars;
use crate::dictionary;
use crate::dictionary_text;
use crate::words;
use crate::words::Class;

verus! {

// ---- order ------------------------------------------------------------------------

proof fn lemma_less_asymmetric(a: Seq<char>, b: Seq<char>)
    requires
        dictionary_text::text_less(a, b),
    ensures
        !dictionary_text::text_less(b, a),
    decreases a.len(),
{
    if a.len() > 0 && b.len() > 0 && a[0] == b[0] {
        lemma_less_asymmetric(a.drop_first(), b.drop_first());
    }
}

/// If neither of two steps goes down, the two together do not either.
proof fn lemma_not_less_transitive(a: Seq<char>, b: Seq<char>, c: Seq<char>)
    requires
        !dictionary_text::text_less(b, a),
        !dictionary_text::text_less(c, b),
    ensures
        !dictionary_text::text_less(c, a),
    decreases a.len(),
{
    if a.len() > 0 && b.len() > 0 && c.len() > 0 && a[0] == b[0] && b[0] == c[0] {
        lemma_not_less_transitive(a.drop_first(), b.drop_first(), c.drop_first());
    }
}

/// No entry comes after one that its spoken form goes before.
pub open spec fn rising(entries: Seq<(Seq<char>, Seq<char>)>) -> bool {
    forall|i: int, j: int|
        0 <= i <= j < entries.len() ==> !dictionary_text::text_less(
            (#[trigger] entries[j]).0,
            (#[trigger] entries[i]).0,
        )
}

proof fn lemma_not_less_self(a: Seq<char>)
    ensures
        !dictionary_text::text_less(a, a),
    decreases a.len(),
{
    if a.len() > 0 {
        lemma_not_less_self(a.drop_first());
    }
}

proof fn lemma_slot(sorted: Seq<(Seq<char>, Seq<char>)>, key: Seq<char>)
    requires
        rising(sorted),
    ensures
        0 <= dictionary_text::slot(sorted, key) <= sorted.len(),
        forall|i: int|
            0 <= i < dictionary_text::slot(sorted, key) ==> !dictionary_text::text_less(
                key,
                (#[trigger] sorted[i]).0,
            ),
        forall|i: int|
            dictionary_text::slot(sorted, key) <= i < sorted.len()
                ==> dictionary_text::text_less(key, (#[trigger] sorted[i]).0),
    decreases sorted.len(),
{
    if sorted.len() > 0 {
        if dictionary_text::text_less(key, sorted.last().0) {
            let rest = sorted.drop_last();
            assert forall|i: int, j: int| 0 <= i <= j < rest.len() implies !dictionary_text::text_less(
                (#[trigger] rest[j]).0,
                (#[trigger] rest[i]).0,
            ) by {
                assert(rest[i] == sorted[i] && rest[j] == sorted[j]);
            }
            lemma_slot(rest, key);
            assert forall|i: int| 0 <= i < dictionary_text::slot(sorted, key) implies !dictionary_text::text_less(
                key,
                (#[trigger] sorted[i]).0,
            ) by {
                assert(rest[i] == sorted[i]);
            }
            assert forall|i: int|
                dictionary_text::slot(sorted, key) <= i
                    < sorted.len() implies dictionary_text::text_less(
                key,
                (#[trigger] sorted[i]).0,
            ) by {
                if i < rest.len() {
                    assert(rest[i] == sorted[i]);
                }
            }
        } else {
            let last = sorted.len() - 1;
            assert forall|i: int| 0 <= i < sorted.len() implies !dictionary_text::text_less(
                key,
                (#[trigger] sorted[i]).0,
            ) by {
                lemma_not_less_transitive(sorted[i].0, sorted[last].0, key);
            }
        }
    }
}

/// A dictionary is shown in the order of its spoken forms, and every entry of it
/// once.
pub proof fn law_shown_in_order(entries: Seq<(Seq<char>, Seq<char>)>)
    ensures
        rising(dictionary_text::in_order(entries)),
        dictionary_text::in_order(entries).to_multiset() == entries.to_multiset(),
    decreases entries.len(),
{
    if entries.len() > 0 {
        let before = entries.drop_last();
        let e = entries.last();
        law_shown_in_order(before);
        let sorted = dictionary_text::in_order(before);
        let p = dictionary_text::slot(sorted, e.0);
        lemma_slot(sorted, e.0);
        let full = sorted.insert(p, e);
        assert forall|i: int, j: int| 0 <= i <= j < full.len() implies !dictionary_text::text_less(
            (#[trigger] full[j]).0,
            (#[trigger] full[i]).0,
        ) by {
            if i < p {
                assert(full[i] == sorted[i]);
            } else if i > p {
                assert(full[i] == sorted[i - 1]);
            }
            if j < p {
                assert(full[j] == sorted[j]);
            } else if j > p {
                assert(full[j] == sorted[j - 1]);
            }
            if i == p && j == p {
                lemma_not_less_self(e.0);
            } else if i == p {
                lemma_less_asymmetric(e.0, sorted[j - 1].0);
            }
        }
        broadcast use vstd::seq_lib::group_to_multiset_ensures;

        assert(entries =~= before.push(e));
        assert(full.to_multiset() =~= sorted.to_multiset().insert(e));
        assert(entries.to_multiset() =~= before.to_multiset().insert(e));
    } else {
        assert(entries =~= dictionary_text::in_order(entries));
    }
}

// ---- round trip -------------------------------------------------------------------

/// A text begins and ends in something other than white space and quotes.
pub open spec fn bare_ends(s: Seq<char>) -> bool {
    &&& s.len() > 0
    &&& !chars::whitespace(s[0]) && s[0] != '"'
    &&& !chars::whitespace(s.last()) && s.last() != '"'
}

/// An entry can be typed on a line of its own: neither side begins or ends in
/// white space or a quote or holds a line break, and the spoken form holds no
/// equals sign and does not begin like a note.
pub open spec fn typeable(e: (Seq<char>, Seq<char>)) -> bool {
    &&& bare_ends(e.0)
    &&& bare_ends(e.1)
    &&& e.0[0] != '#'
    &&& !e.0.contains('=')
    &&& !e.0.contains('\n')
    &&& !e.1.contains('\n')
}

pub open spec fn all_typeable(entries: Seq<(Seq<char>, Seq<char>)>) -> bool {
    forall|i: int| 0 <= i < entries.len() ==> typeable(#[trigger] entries[i])
}

proof fn lemma_trim_bare(s: Seq<char>, class: Class)
    requires
        s.len() > 0,
        !class.has(s[0]),
        !class.has(s.last()),
    ensures
        words::trim_class(s, class) == s,
{
}

proof fn lemma_entry_reads_back(e: (Seq<char>, Seq<char>))
    requires
        typeable(e),
    ensures
        dictionary_text::entry_of(dictionary_text::line_of(e)) == Some(e),
        !dictionary_text::line_of(e).contains('\n'),
        dictionary_text::line_of(e).len() > 0,
{
    reveal_strlit(" = ");
    let (k, v) = e;
    let t = dictionary_text::line_of(e);
    let mid = " = "@;
    assert(mid =~= seq![' ', '=', ' ']);
    assert(t.len() == k.len() + 3 + v.len());
    assert(t[0] == k[0]);
    assert(t.last() == v.last());
    lemma_trim_bare(t, Class::Whitespace);
    let n = k.len() as int + 1;
    assert forall|i: int| 0 <= i < n implies #[trigger] t[i] != '=' by {
        if i < k.len() {
            assert(t[i] == k[i]);
            assert(k.contains(k[i]));
        }
    }
    assert(t[n] == '=');
    words::lemma_index_of_is(t, '=', n);
    // the left side
    let left = t.take(n);
    assert(left =~= k.push(' '));
    assert(words::trim_left(left, Class::Whitespace) == left);
    assert(left.last() == ' ');
    assert(left.drop_last() =~= k);
    assert(words::trim_right(k, Class::Whitespace) == k);
    assert(words::trim(left) == k);
    lemma_trim_bare(k, Class::Quote);
    // the right side
    let right = t.skip(n + 1);
    assert(right =~= seq![' '] + v);
    assert(right[0] == ' ');
    assert(right.drop_first() =~= v);
    assert(words::trim_left(v, Class::Whitespace) == v);
    assert(words::trim(right) == v);
    lemma_trim_bare(v, Class::Quote);
    assert forall|i: int| 0 <= i < t.len() implies #[trigger] t[i] != '\n' by {
        if i < k.len() {
            assert(t[i] == k[i]);
            assert(k.contains(k[i]));
        } else if i >= k.len() + 3 {
            assert(t[i] == v[i - k.len() - 3]);
            assert(v.contains(v[i - k.len() - 3]));
        }
    }
}

proof fn lemma_joined_first(pieces: Seq<Seq<char>>, sep: Seq<char>)
    requires
        pieces.len() >= 2,
    ensures
        words::joined(pieces, sep) == pieces[0] + sep + words::joined(pieces.drop_first(), sep),
    decreases pieces.len(),
{
    let rest = pieces.drop_first();
    if pieces.len() == 2 {
        assert(pieces.drop_last() =~= seq![pieces[0]]);
        assert(words::joined(pieces.drop_last(), sep) == pieces[0]);
        assert(rest[0] == pieces.last());
    } else {
        lemma_joined_first(pieces.drop_last(), sep);
        assert(pieces.drop_last().drop_first() =~= rest.drop_last());
        assert(pieces.drop_last()[0] == pieces[0]);
        assert(rest.last() == pieces.last());
        assert(words::joined(pieces, sep) =~= pieces[0] + sep + (words::joined(
            rest.drop_last(),
            sep,
        ) + sep + rest.last()));
    }
}

proof fn lemma_lines_of_joined(pieces: Seq<Seq<char>>)
    requires
        forall|i: int|
            0 <= i < pieces.len() ==> (#[trigger] pieces[i]).len() > 0 && !pieces[i].contains('\n'),
    ensures
        words::lines(words::joined(pieces, "\r\n"@)) == pieces,
    decreases pieces.len(),
{
    let sep = "\r\n"@;
    reveal_strlit("\r\n");
    assert(sep =~= seq!['\r', '\n']);
    if pieces.len() == 0 {
        assert(pieces =~= seq![]);
    } else {
        let first = pieces[0];
        assert forall|i: int| 0 <= i < first.len() implies #[trigger] first[i] != '\n' by {
            assert(first.contains(first[i]));
        }
        if pieces.len() == 1 {
            words::lemma_index_of_is(first, '\n', first.len() as int);
            assert(pieces =~= seq![first]);
        } else {
            let rest = pieces.drop_first();
            lemma_joined_first(pieces, sep);
            assert forall|i: int| 0 <= i < rest.len() implies (#[trigger] rest[i]).len() > 0
                && !rest[i].contains('\n') by {
                assert(rest[i] == pieces[i + 1]);
            }
            lemma_lines_of_joined(rest);
            let tail = words::joined(rest, sep);
            let s = first + sep + tail;
            let n = first.len() as int + 1;
            assert forall|i: int| 0 <= i < n implies #[trigger] s[i] != '\n' by {
                if i < first.len() {
                    assert(s[i] == first[i]);
                }
            }
            assert(s[n] == '\n');
            words::lemma_index_of_is(s, '\n', n);
            assert(s.take(n) =~= first.push('\r'));
            assert(s.take(n).drop_last() =~= first);
            assert(words::without_return(s.take(n)) == first);
            assert(s.skip(n + 1) =~= tail);
            assert(pieces =~= seq![first] + rest);
        }
    }
}

proof fn lemma_entries_of_lines(entries: Seq<(Seq<char>, Seq<char>)>, lines: Seq<Seq<char>>)
    requires
        dictionary::distinct(entries),
        all_typeable(entries),
        lines.len() == entries.len(),
        forall|i: int|
            0 <= i < lines.len() ==> #[trigger] lines[i] == dictionary_text::line_of(entries[i]),
    ensures
        dictionary_text::entries_of(lines) == entries,
    decreases entries.len(),
{
    if entries.len() == 0 {
        assert(entries =~= seq![]);
    } else {
        let before = entries.drop_last();
        let e = entries.last();
        assert forall|i: int| 0 <= i < before.len() implies typeable(#[trigger] before[i]) by {
            assert(before[i] == entries[i]);
        }
        assert forall|i: int, j: int| 0 <= i < j < before.len() implies (#[trigger] before[i]).0
            != (#[trigger] before[j]).0 by {
            assert(before[i] == entries[i] && before[j] == entries[j]);
        }
        assert forall|i: int| 0 <= i < lines.drop_last().len() implies #[trigger] lines.drop_last()[i]
            == dictionary_text::line_of(before[i]) by {
            assert(lines.drop_last()[i] == lines[i]);
        }
        lemma_entries_of_lines(before, lines.drop_last());
        assert(lines.last() == dictionary_text::line_of(e)) by {
            assert(lines[lines.len() - 1] == dictionary_text::line_of(
                entries[entries.len() - 1],
            ));
        }
        assert(typeable(entries[entries.len() - 1]));
        lemma_entry_reads_back(e);
        dictionary::lemma_key_index(before, e.0);
        let k = dictionary::key_index(before, e.0) as int;
        if k < before.len() {
            assert(entries[k].0 != entries[entries.len() - 1].0);
            assert(before[k] == entries[k]);
        }
        assert(before.push(e) =~= entries);
    }
}

/// The order keeps what each spoken form is written as, keeps the spoken forms
/// apart, and keeps the entries typeable.
proof fn lemma_order_keeps(entries: Seq<(Seq<char>, Seq<char>)>)
    requires
        dictionary::distinct(entries),
        all_typeable(entries),
    ensures
        dictionary::distinct(dictionary_text::in_order(entries)),
        all_typeable(dictionary_text::in_order(entries)),
{
    let sorted = dictionary_text::in_order(entries);
    law_shown_in_order(entries);
    broadcast use vstd::seq_lib::group_to_multiset_ensures;

    assert(sorted.len() == sorted.to_multiset().len());
    assert forall|i: int| 0 <= i < sorted.len() implies typeable(#[trigger] sorted[i]) by {
        assert(sorted.contains(sorted[i]));
        assert(entries.to_multiset().count(sorted[i]) > 0);
        assert(entries.contains(sorted[i]));
        let k = entries.index_of(sorted[i]);
        assert(entries[k] == sorted[i]);
    }
    assert forall|i: int, j: int| 0 <= i < j < sorted.len() implies (#[trigger] sorted[i]).0
        != (#[trigger] sorted[j]).0 by {
        lemma_apart(entries, sorted, i, j);
    }
}

proof fn lemma_no_duplicates(entries: Seq<(Seq<char>, Seq<char>)>)
    requires
        dictionary::distinct(entries),
    ensures
        entries.no_duplicates(),
{
    assert forall|i: int, j: int|
        0 <= i < entries.len() && 0 <= j < entries.len() && i != j implies entries[i]
        != entries[j] by {
        if i < j {
            assert(entries[i].0 != entries[j].0);
        } else {
            assert(entries[j].0 != entries[i].0);
        }
    }
}

proof fn lemma_apart(
    entries: Seq<(Seq<char>, Seq<char>)>,
    sorted: Seq<(Seq<char>, Seq<char>)>,
    i: int,
    j: int,
)
    requires
        dictionary::distinct(entries),
        sorted.to_multiset() == entries.to_multiset(),
        0 <= i < j < sorted.len(),
    ensures
        sorted[i].0 != sorted[j].0,
{
    broadcast use vstd::seq_lib::group_to_multiset_ensures;

    lemma_no_duplicates(entries);
    let a = sorted[i];
    let b = sorted[j];
    assert(sorted.contains(a) && sorted.contains(b));
    assert(entries.to_multiset().count(a) > 0);
    assert(entries.to_multiset().count(b) > 0);
    assert(entries.contains(a) && entries.contains(b));
    let p = entries.index_of(a);
    let q = entries.index_of(b);
    assert(entries[p] == a && entries[q] == b);
    if a.0 == b.0 {
        if p < q {
            assert(entries[p].0 != entries[q].0);
        } else if q < p {
            assert(entries[q].0 != entries[p].0);
        }
        assert(a == b);
        entries.lemma_multiset_has_no_duplicates();
        assert(entries.to_multiset().count(a) == 1);
        // the same entry twice would be counted twice
        let left = sorted.take(j);
        let right = sorted.skip(j);
        assert(sorted =~= left + right);
        vstd::seq_lib::lemma_multiset_commutative(left, right);
        assert(left[i] == a);
        assert(left.contains(a));
        assert(right[0] == b);
        assert(right.contains(a));
        assert(left.to_multiset().count(a) > 0);
        assert(right.to_multiset().count(a) > 0);
    }
}

/// What the window shows of a dictionary reads back as the same dictionary: the
/// same entries, and the same written form for every spoken one.
pub proof fn law_dictionary_round_trips(entries: Seq<(Seq<char>, Seq<char>)>, key: Seq<char>)
    requires
        dictionary::distinct(entries),
        all_typeable(entries),
    ensures
        dictionary_text::entries_of(words::lines(dictionary_text::shown(entries)))
            == dictionary_text::in_order(entries),
        dictionary::lookup(
            dictionary_text::entries_of(words::lines(dictionary_text::shown(entries))),
            key,
        ) == dictionary::lookup(entries, key),
{
    let sorted = dictionary_text::in_order(entries);
    let lines = dictionary_text::shown_lines(entries);
    lemma_order_keeps(entries);
    assert forall|i: int| 0 <= i < lines.len() implies (#[trigger] lines[i]).len() > 0
        && !lines[i].contains('\n') by {
        assert(typeable(sorted[i]));
        lemma_entry_reads_back(sorted[i]);
    }
    lemma_lines_of_joined(lines);
    lemma_entries_of_lines(sorted, lines);
    // every spoken form is written as before
    law_shown_in_order(entries);
    dictionary::lemma_key_index(entries, key);
    dictionary::lemma_key_index(sorted, key);
    broadcast use vstd::seq_lib::group_to_multiset_ensures;

    let i = dictionary::key_index(entries, key) as int;
    let j = dictionary::key_index(sorted, key) as int;
    if i < entries.len() {
        assert(entries.contains(entries[i]));
        assert(sorted.to_multiset().count(entries[i]) > 0);
        assert(sorted.contains(entries[i]));
        let k = sorted.index_of(entries[i]);
        assert(sorted[k].0 == key);
        assert(j <= k);
        if j < k {
            assert(sorted[j].0 != sorted[k].0);
        }
    } else if j < sorted.len() {
        assert(sorted.contains(sorted[j]));
        assert(entries.to_multiset().count(sorted[j]) > 0);
        assert(entries.contains(sorted[j]));
        let k = entries.index_of(sorted[j]);
        assert(entries[k].0 == key);
    }
}

/// A bare term is written as it was typed.
pub proof fn law_bare_term_is_written_as_typed(line: Seq<char>)
    requires
        dictionary_text::meant(line),
        !words::trim(line).contains('='),
    ensures
        dictionary_text::sides(line).1 == words::trim_class(words::trim(line), Class::Quote),
        dictionary_text::sides(line).0 == dictionary_text::said(dictionary_text::sides(line).1),
{
    let t = words::trim(line);
    assert forall|i: int| 0 <= i < t.len() implies #[trigger] t[i] != '=' by {
        assert(t.contains(t[i]));
    }
    words::lemma_index_of_is(t, '=', t.len() as int);
}

} // verus!
