//! What a line that is typed into the dictionary means.

use vstd::prelude::*;
use crate::chars;
use crate::dictionary;
use crate::dictionary_text;
use crate::dictionary_text_laws;
use crate::words;
use crate::words::Class;
use crate::words_laws;

verus! {

// ---- lines ----------------------------------------------------------------------------

/// A line feed ends a line, and a carriage return before it belongs to the ending. What
/// follows is cut into lines on its own.
pub proof fn law_line_feeds_end_lines(line: Seq<char>, rest: Seq<char>)
    requires
        !line.contains('\n'),
    ensures
        words::lines(line.push('\n') + rest) == seq![
            if line.len() > 0 && line.last() == '\r' {
                line.drop_last()
            } else {
                line
            },
        ] + words::lines(rest),
        words::lines(line) == if line.len() > 0 {
            seq![line]
        } else {
            seq![]
        },
{
    let all = line.push('\n') + rest;
    let n = line.len() as int;
    assert forall|i: int| 0 <= i < n implies #[trigger] line[i] != '\n' by {
        assert(line.contains(line[i]));
    }
    assert forall|i: int| 0 <= i < n implies #[trigger] all[i] != '\n' by {
        assert(all[i] == line[i]);
    }
    assert(all[n] == '\n');
    words::lemma_index_of_is(all, '\n', n);
    words::lemma_index_of_is(line, '\n', n);
    assert(all.take(n) =~= line);
    assert(all.skip(n + 1) =~= rest);
}

// ---- pairs ----------------------------------------------------------------------------

/// A text in straight double quotes.
pub open spec fn quoted(s: Seq<char>) -> Seq<char> {
    seq!['"'] + s + seq!['"']
}

proof fn lemma_side(before: Seq<char>, s: Seq<char>, after: Seq<char>)
    requires
        words_laws::all_space(before),
        words_laws::all_space(after),
        dictionary_text_laws::bare_ends(s),
    ensures
        dictionary_text::side(before + s + after) == s,
        dictionary_text::side(before + quoted(s) + after) == s,
{
    words_laws::law_trimming(before, s, after);
    lemma_no_quotes(s);
    let q = quoted(s);
    assert(q[0] == '"' && q.last() == '"');
    words_laws::law_trimming(before, q, after);
    let r = words_laws::lemma_trim_parts(q, Class::Quote);
    assert(q[1] == s[0]);
    assert(q[q.len() - 2] == s.last());
    if r.0 > 1 {
        assert(Class::Quote.has(q[1]));
    }
    if r.1 < q.len() - 1 {
        assert(Class::Quote.has(q[q.len() - 2]));
    }
    if r.0 == 0 && r.0 < r.1 {
        assert(Class::Quote.has(q[0]));
    }
    if r.1 == q.len() && r.0 < r.1 {
        assert(Class::Quote.has(q[q.len() - 1]));
    }
    assert(q.subrange(r.0, r.1) =~= s);
}

proof fn lemma_no_quotes(s: Seq<char>)
    requires
        dictionary_text_laws::bare_ends(s),
    ensures
        words::trim_class(s, Class::Quote) == s,
{
    let r = words_laws::lemma_trim_parts(s, Class::Quote);
    if r.0 > 0 {
        assert(Class::Quote.has(s[0]));
    }
    if r.1 < s.len() {
        assert(Class::Quote.has(s[s.len() - 1]));
    }
    assert(s.subrange(r.0, r.1) =~= s);
}

proof fn lemma_pair(left: Seq<char>, right: Seq<char>, s: Seq<char>, w: Seq<char>)
    requires
        !left.contains('='),
        dictionary_text::side(left) == s,
        dictionary_text::side(right) == w,
        s.len() > 0,
        w.len() > 0,
        left.len() > 0 && right.len() > 0,
        !chars::whitespace(left[0]) && left[0] != '#',
        !chars::whitespace(right.last()),
    ensures
        dictionary_text::sides(left.push('=') + right) == (s, w),
        dictionary_text::meant(left.push('=') + right),
{
    let t = left.push('=') + right;
    let n = left.len() as int;
    words_laws::law_trimming(Seq::empty(), t, Seq::empty());
    assert(Seq::<char>::empty() + t + Seq::<char>::empty() =~= t);
    assert(t[0] == left[0]);
    assert(t.last() == right.last());
    assert forall|i: int| 0 <= i < n implies #[trigger] t[i] != '=' by {
        assert(t[i] == left[i]);
        assert(left.contains(left[i]));
    }
    assert(t[n] == '=');
    words::lemma_index_of_is(t, '=', n);
    assert(t.take(n) =~= left);
    assert(t.skip(n + 1) =~= right);
}

/// A line with an equals sign pairs what is heard with what is written: what stands before
/// the first such sign is heard and what stands behind it is written, both without the
/// white space and the quotes around them.
pub proof fn law_pairs_are_read(
    spoken: Seq<char>,
    one: Seq<char>,
    two: Seq<char>,
    written: Seq<char>,
)
    requires
        dictionary_text_laws::bare_ends(spoken),
        dictionary_text_laws::bare_ends(written),
        !spoken.contains('='),
        words_laws::all_space(one),
        words_laws::all_space(two),
    ensures
        spoken[0] != '#' ==> dictionary_text::entry_of(spoken + one + seq!['='] + two + written)
            == Some((spoken, written)),
        dictionary_text::entry_of(quoted(spoken) + one + seq!['='] + two + quoted(written))
            == Some((spoken, written)),
{
    lemma_side(Seq::empty(), spoken, one);
    lemma_side(two, written, Seq::empty());
    assert(Seq::<char>::empty() + spoken + one =~= spoken + one);
    assert(two + written + Seq::<char>::empty() =~= two + written);
    assert(Seq::<char>::empty() + quoted(spoken) + one =~= quoted(spoken) + one);
    assert(two + quoted(written) + Seq::<char>::empty() =~= two + quoted(written));
    assert forall|i: int| 0 <= i < one.len() implies #[trigger] one[i] != '=' by {
        assert(chars::whitespace(one[i]));
    }
    let plain = spoken + one;
    assert(!plain.contains('=')) by {
        if plain.contains('=') {
            let i = plain.index_of('=');
            if i < spoken.len() {
                assert(spoken[i] == '=');
            } else {
                assert(one[i - spoken.len()] == '=');
            }
        }
    }
    if spoken[0] != '#' {
        lemma_pair(plain, two + written, spoken, written);
        assert(plain.push('=') + (two + written) =~= spoken + one + seq!['='] + two + written);
    }
    let q = quoted(spoken) + one;
    assert(!q.contains('=')) by {
        if q.contains('=') {
            let i = q.index_of('=');
            if 1 <= i < spoken.len() + 1 {
                assert(spoken[i - 1] == '=');
            } else if i >= spoken.len() + 2 {
                assert(one[i - spoken.len() - 2] == '=');
            }
        }
    }
    lemma_pair(q, two + quoted(written), spoken, written);
    assert(q.push('=') + (two + quoted(written)) =~= quoted(spoken) + one + seq!['='] + two
        + quoted(written));
}

/// A bare term is written as it was typed and heard as it is said: in lower case, with a
/// space for each hyphen, underscore and slash, and one space between each two words.
pub proof fn law_bare_terms_are_heard_as_they_are_said(term: Seq<char>)
    requires
        dictionary_text_laws::bare_ends(term),
        term[0] != '#',
        !term.contains('='),
    ensures
        ({
            let heard = words::words(
                chars::lower(term).map_values(
                    |c: char|
                        if c == '-' || c == '_' || c == '/' {
                            ' '
                        } else {
                            c
                        },
                ),
            );
            if heard.len() == 0 {
                dictionary_text::entry_of(term) is None
            } else {
                dictionary_text::entry_of(term) matches Some(e) && e.1 == term && words::words(e.0)
                    == heard && e.0 == words::joined(heard, seq![' '])
            }
        }),
{
    reveal_strlit(" ");
    assert(" "@ =~= seq![' ']);
    words_laws::law_trimming(Seq::empty(), term, Seq::empty());
    assert(Seq::<char>::empty() + term + Seq::<char>::empty() =~= term);
    assert forall|i: int| 0 <= i < term.len() implies #[trigger] term[i] != '=' by {
        assert(term.contains(term[i]));
    }
    words::lemma_index_of_is(term, '=', term.len() as int);
    lemma_no_quotes(term);
    let plain = chars::lower(term).map_values(
        |c: char|
            if c == '-' || c == '_' || c == '/' {
                ' '
            } else {
                c
            },
    );
    assert(dictionary_text::sounded(chars::lower(term)) =~= plain);
    let heard = words::words(plain);
    assert forall|i: int| 0 <= i < heard.len() implies (#[trigger] heard[i]).len() > 0
        && words_laws::no_space(heard[i]) by {
        words_laws::law_words_are_solid(plain, i);
    }
    lemma_words_joined(heard);
    if heard.len() > 0 {
        let key = words::joined(heard, " "@);
        assert(words::words(key) == heard);
        if key.len() == 0 {
            assert(words::words(key) =~= seq![]);
        }
    }
}

proof fn lemma_words_joined(ws: Seq<Seq<char>>)
    requires
        forall|i: int|
            0 <= i < ws.len() ==> (#[trigger] ws[i]).len() > 0 && words_laws::no_space(ws[i]),
    ensures
        words::words(words::joined(ws, " "@)) == ws,
{
    words_laws::lemma_words_of_joined(ws);
    lemma_singles(ws);
}

proof fn lemma_singles(ws: Seq<Seq<char>>)
    requires
        forall|i: int|
            0 <= i < ws.len() ==> (#[trigger] ws[i]).len() > 0 && words_laws::no_space(ws[i]),
    ensures
        words_laws::chained(ws.map_values(|p: Seq<char>| words::words(p))) == ws,
    decreases ws.len(),
{
    let each = ws.map_values(|p: Seq<char>| words::words(p));
    if ws.len() > 0 {
        let before = ws.drop_last();
        assert forall|i: int| 0 <= i < before.len() implies (#[trigger] before[i]).len() > 0
            && words_laws::no_space(before[i]) by {
            assert(before[i] == ws[i]);
        }
        lemma_singles(before);
        assert(each.drop_last() =~= before.map_values(|p: Seq<char>| words::words(p)));
        assert(ws[ws.len() - 1] == ws.last());
        words_laws::law_one_word(ws.last());
        assert(each.last() == seq![ws.last()]);
        assert(words_laws::chained(each) =~= ws);
    } else {
        assert(words_laws::chained(each) =~= ws);
    }
}

/// Neither a blank line nor one that begins with a number sign holds an entry, nor does one
/// with nothing on a side of its equals sign.
pub proof fn law_notes_hold_nothing(before: Seq<char>, note: Seq<char>, after: Seq<char>)
    requires
        words_laws::all_space(before),
        words_laws::all_space(after),
        note.len() > 0 ==> note[0] == '#' && !chars::whitespace(note.last()),
    ensures
        dictionary_text::entry_of(before + note + after) is None,
        !dictionary_text::meant(before + note + after),
        dictionary_text::entry_of(seq!['='] + note) is None,
{
    words_laws::law_trimming(before, note, after);
    let t = seq!['='] + note;
    assert(t[0] == '=');
    assert(t.last() == if note.len() > 0 {
        note.last()
    } else {
        '='
    });
    words_laws::law_trimming(Seq::empty(), t, Seq::empty());
    assert(Seq::<char>::empty() + t + Seq::<char>::empty() =~= t);
    words::lemma_index_of_is(t, '=', 0);
    assert(t.take(0) =~= seq![]);
    assert(dictionary_text::side(t.take(0)) =~= seq![]);
}

/// White space around a line changes nothing.
pub proof fn law_lines_are_trimmed(before: Seq<char>, line: Seq<char>, after: Seq<char>)
    requires
        words_laws::all_space(before),
        words_laws::all_space(after),
        line.len() > 0 ==> !chars::whitespace(line[0]) && !chars::whitespace(line.last()),
    ensures
        dictionary_text::entry_of(before + line + after) == dictionary_text::entry_of(line),
{
    words_laws::law_trimming(before, line, after);
    words_laws::law_trimming(Seq::empty(), line, Seq::empty());
    assert(Seq::<char>::empty() + line + Seq::<char>::empty() =~= line);
}

/// One more line sets its entry over whatever stood for the same spoken form, and leaves
/// every other one; a line without an entry changes nothing.
pub proof fn law_one_more_line(lines: Seq<Seq<char>>, line: Seq<char>, key: Seq<char>)
    ensures
        dictionary::lookup(dictionary_text::entries_of(lines.push(line)), key) == (
        match dictionary_text::entry_of(line) {
            Some((spoken, written)) => if spoken == key {
                Some(written)
            } else {
                dictionary::lookup(dictionary_text::entries_of(lines), key)
            },
            None => dictionary::lookup(dictionary_text::entries_of(lines), key),
        }),
        dictionary::lookup(dictionary_text::entries_of(Seq::empty()), key) is None,
{
    assert(lines.push(line).drop_last() =~= lines);
    if let Some((spoken, written)) = dictionary_text::entry_of(line) {
        dictionary::law_put_lookup(dictionary_text::entries_of(lines), spoken, written, key);
    }
}

/// What is found for a spoken form stands in the dictionary beside it.
pub proof fn law_lookup_finds_entries(
    entries: Seq<(Seq<char>, Seq<char>)>,
    key: Seq<char>,
    i: int,
)
    requires
        dictionary::distinct(entries),
        0 <= i < entries.len(),
    ensures
        dictionary::lookup(entries, entries[i].0) == Some(entries[i].1),
        dictionary::lookup(entries, key) is None <==> forall|j: int|
            0 <= j < entries.len() ==> (#[trigger] entries[j]).0 != key,
{
    dictionary::lemma_key_index(entries, entries[i].0);
    dictionary::lemma_key_index(entries, key);
    let n = dictionary::key_index(entries, entries[i].0) as int;
    if n < i {
        assert(entries[n].0 != entries[i].0);
    } else if i < n {
        assert(entries[i].0 != entries[i].0);
    }
}

/// Spoken forms are ordered by the first character in which they differ, and a form comes
/// before one that it begins.
pub proof fn law_order_of_spoken_forms(a: Seq<char>, b: Seq<char>, n: int)
    requires
        0 <= n <= a.len(),
        n <= b.len(),
        a.take(n) == b.take(n),
        n < a.len() && n < b.len() ==> a[n] != b[n],
    ensures
        n < a.len() && n < b.len() ==> dictionary_text::text_less(a, b) == (a[n] < b[n]),
        n == a.len() ==> dictionary_text::text_less(a, b) == (a.len() < b.len()),
        n == b.len() ==> !dictionary_text::text_less(a, b),
    decreases n,
{
    if n > 0 {
        assert(a[0] == a.take(n)[0] && b[0] == b.take(n)[0]);
        let (p, q) = (a.drop_first(), b.drop_first());
        assert forall|i: int| 0 <= i < n - 1 implies #[trigger] p[i] == q[i] by {
            assert(p[i] == a.take(n)[i + 1]);
            assert(q[i] == b.take(n)[i + 1]);
        }
        assert(p.take(n - 1) =~= q.take(n - 1));
        if n < a.len() {
            assert(p[n - 1] == a[n]);
        }
        if n < b.len() {
            assert(q[n - 1] == b[n]);
        }
        law_order_of_spoken_forms(p, q, n - 1);
    }
}

/// A line with an equals sign and nothing on one side of it holds no entry.
pub proof fn law_half_pairs_hold_nothing(left: Seq<char>, right: Seq<char>)
    requires
        !left.contains('='),
        words_laws::all_space(left) || words_laws::all_space(right),
    ensures
        dictionary_text::entry_of(left.push('=') + right) is None,
{
    let line = left.push('=') + right;
    let n = left.len() as int;
    assert(line[n] == '=');
    let r = words_laws::lemma_trim_parts(line, Class::Whitespace);
    assert(r.0 <= n < r.1) by {
        if !(r.0 <= n < r.1) {
            assert(Class::Whitespace.has(line[n]));
        }
    }
    let t = words::trim(line);
    let k = n - r.0;
    assert(t[k] == '=');
    assert forall|i: int| 0 <= i < k implies #[trigger] t[i] != '=' by {
        assert(t[i] == left[r.0 + i]);
        assert(left.contains(left[r.0 + i]));
    }
    words::lemma_index_of_is(t, '=', k);
    let one = t.take(k);
    let two = t.skip(k + 1);
    if words_laws::all_space(left) {
        if k > 0 {
            assert(line[r.0] == left[r.0]);
            assert(!Class::Whitespace.has(line[r.0]));
        }
        lemma_blank_side(one);
    } else {
        assert forall|i: int| 0 <= i < two.len() implies chars::whitespace(#[trigger] two[i]) by {
            assert(two[i] == right[r.0 + k + i - n]);
        }
        lemma_blank_side(two);
    }
}

proof fn lemma_blank_side(s: Seq<char>)
    requires
        words_laws::all_space(s),
    ensures
        dictionary_text::side(s).len() == 0,
{
    words_laws::law_trimming(s, Seq::empty(), Seq::empty());
    assert(s + Seq::<char>::empty() + Seq::<char>::empty() =~= s);
    let t = words::trim(s);
    assert(t.len() == 0);
    let r = words_laws::lemma_trim_parts(t, Class::Quote);
}

} // verus!
