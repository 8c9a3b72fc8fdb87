//! Which application is about to receive the text, and what that implies.
//!
//! In an editor a line break is a line break. At a shell prompt it is the Enter
//! key, so inside a terminal line breaks are replaced rather than sent.

use vstd::prelude::*;
use crate::chars;
use crate::chars::{push_str, str_eq, to_chars, to_lowercase};

verus! {

/// Whether an application is a terminal, given the built-in list: it has a name,
/// and that is in the list or is the lower case of an extra entry.
pub open spec fn terminal(
    defaults: Seq<Seq<char>>,
    exe: Seq<char>,
    extra: Seq<Seq<char>>,
) -> bool {
    &&& exe.len() > 0
    &&& defaults.contains(exe) || exists|i: int|
        0 <= i < extra.len() && chars::lower(#[trigger] extra[i]) == exe
}

/// The views of a list of fixed strings.
pub open spec fn fixed(v: Seq<&'static str>) -> Seq<Seq<char>> {
    v.map_values(|s: &'static str| s@)
}

/// Whether an application is a terminal.
pub fn is_terminal_among(defaults: &[&'static str], exe: &str, extra: &[String]) -> (r: bool)
    ensures
        r == terminal(fixed(defaults@), exe@, chars::texts(extra@)),
{
    if exe.is_empty() {
        return false;
    }
    let ghost ds = fixed(defaults@);
    let ghost es = chars::texts(extra@);
    let mut i: usize = 0;
    while i < defaults.len()
        invariant
            i <= defaults@.len(),
            exe@.len() > 0,
            ds == fixed(defaults@),
            forall|k: int| 0 <= k < i ==> #[trigger] ds[k] != exe@,
        decreases defaults@.len() - i,
    {
        if str_eq(defaults[i], exe) {
            assert(ds[i as int] == exe@);
            assert(ds.contains(exe@));
            return true;
        }
        i += 1;
    }
    assert(!ds.contains(exe@));
    let mut j: usize = 0;
    while j < extra.len()
        invariant
            j <= extra@.len(),
            exe@.len() > 0,
            es == chars::texts(extra@),
            forall|k: int| 0 <= k < j ==> chars::lower(#[trigger] es[k]) != exe@,
        decreases extra@.len() - j,
    {
        if str_eq(to_lowercase(extra[j].as_str()).as_str(), exe) {
            assert(chars::lower(es[j as int]) == exe@);
            return true;
        }
        j += 1;
    }
    false
}

/// A line break of either kind.
pub open spec fn line_break(c: char) -> bool {
    c == '\n' || c == '\r'
}

/// The last character of a text that is not a line break.
pub open spec fn last_kept(s: Seq<char>) -> Option<char>
    decreases s.len(),
{
    if s.len() == 0 {
        None
    } else if line_break(s.last()) {
        last_kept(s.drop_last())
    } else {
        Some(s.last())
    }
}

/// A text without line breaks: a run of them between two characters becomes the
/// replacement, or nothing where a space stands before it; at either end it
/// becomes nothing.
pub open spec fn stripped(s: Seq<char>, replacement: Seq<char>) -> Seq<char>
    decreases s.len(),
{
    if s.len() == 0 {
        seq![]
    } else {
        let c = s.last();
        let before = s.drop_last();
        if line_break(c) {
            stripped(before, replacement)
        } else if before.len() > 0 && line_break(before.last()) && last_kept(before) is Some
            && last_kept(before) != Some(' ') {
            (stripped(before, replacement) + replacement).push(c)
        } else {
            stripped(before, replacement).push(c)
        }
    }
}

/// A text with its line breaks replaced, for a shell prompt. Never a real line
/// break: that is the Enter key, and it would run the command.
pub fn strip_newlines(text: &str, replacement: &str) -> (out: String)
    ensures
        out@ == stripped(text@, replacement@),
{
    let cs: Vec<char> = to_chars(text);
    let mut out: String = String::new();
    let mut last: Option<char> = None;
    let mut pending: bool = false;
    let mut i: usize = 0;
    while i < cs.len()
        invariant
            i <= cs@.len(),
            last == last_kept(cs@.take(i as int)),
            pending == (i > 0 && line_break(cs@[i - 1])),
            out@ == stripped(cs@.take(i as int), replacement@),
        decreases cs@.len() - i,
    {
        let c: char = cs[i];
        proof {
            assert(cs@.take(i + 1).drop_last() =~= cs@.take(i as int));
            assert(cs@.take(i + 1).last() == c);
        }
        if c == '\n' || c == '\r' {
            pending = true;
        } else {
            if pending {
                match last {
                    Some(p) => {
                        if p != ' ' {
                            push_str(&mut out, replacement);
                        }
                    },
                    None => {},
                }
            }
            out.push(c);
            last = Some(c);
            pending = false;
        }
        i += 1;
    }
    assert(cs@.take(i as int) =~= cs@);
    out
}

/// A text holds neither a line feed nor a carriage return.
pub open spec fn on_one_line(s: Seq<char>) -> bool {
    forall|i: int| 0 <= i < s.len() ==> #[trigger] s[i] != '\n' && s[i] != '\r'
}

/// A text is made of line feeds and carriage returns only.
pub open spec fn only_breaks(s: Seq<char>) -> bool {
    forall|i: int| 0 <= i < s.len() ==> #[trigger] s[i] == '\n' || s[i] == '\r'
}

/// A run of line breaks between two texts becomes the replacement, once; where a space
/// stands before it, it becomes nothing. The texts around it are dealt with on their own.
pub proof fn law_breaks_become_the_replacement(
    a: Seq<char>,
    breaks: Seq<char>,
    b: Seq<char>,
    replacement: Seq<char>,
)
    requires
        a.len() > 0,
        a.last() != '\n' && a.last() != '\r',
        breaks.len() > 0,
        only_breaks(breaks),
        b.len() > 0,
        b[0] != '\n' && b[0] != '\r',
    ensures
        stripped(a + breaks + b, replacement) == stripped(a, replacement) + (if a.last() == ' ' {
            seq![]
        } else {
            replacement
        }) + stripped(b, replacement),
    decreases b.len(),
{
    let all = a + breaks + b;
    lemma_breaks_behind(a, breaks, replacement);
    let mid = a + breaks;
    assert(all.drop_last() =~= mid + b.drop_last());
    assert(all.last() == b.last());
    let joint = if a.last() == ' ' {
        seq![]
    } else {
        replacement
    };
    if b.len() == 1 {
        assert(mid + b.drop_last() =~= mid);
        assert(mid.last() == breaks.last());
        assert(breaks[breaks.len() - 1] == breaks.last());
        assert(stripped(b.drop_last(), replacement) =~= seq![]);
        assert(stripped(b, replacement) =~= b);
        assert(stripped(all, replacement) =~= stripped(a, replacement) + joint + b);
    } else {
        let rest = b.drop_last();
        law_breaks_become_the_replacement(a, breaks, rest, replacement);
        lemma_last_kept_behind(mid, rest);
        assert((mid + rest).last() == rest.last());
        assert(stripped(all, replacement) =~= stripped(a, replacement) + joint + stripped(
            b,
            replacement,
        ));
    }
}

proof fn lemma_breaks_behind(a: Seq<char>, breaks: Seq<char>, replacement: Seq<char>)
    requires
        only_breaks(breaks),
    ensures
        stripped(a + breaks, replacement) == stripped(a, replacement),
        last_kept(a + breaks) == last_kept(a),
    decreases breaks.len(),
{
    let all = a + breaks;
    if breaks.len() > 0 {
        let rest = breaks.drop_last();
        assert forall|i: int| 0 <= i < rest.len() implies #[trigger] rest[i] == '\n' || rest[i]
            == '\r' by {
            assert(rest[i] == breaks[i]);
        }
        lemma_breaks_behind(a, rest, replacement);
        assert(all.drop_last() =~= a + rest);
        assert(breaks[breaks.len() - 1] == all.last());
    } else {
        assert(all =~= a);
    }
}

proof fn lemma_last_kept_behind(a: Seq<char>, b: Seq<char>)
    requires
        b.len() > 0,
        !line_break(b[0]),
    ensures
        last_kept(a + b) == last_kept(b),
        last_kept(b) is Some,
    decreases b.len(),
{
    let all = a + b;
    assert(all.last() == b.last());
    if line_break(b.last()) {
        assert(b.len() > 1);
        assert(all.drop_last() =~= a + b.drop_last());
        lemma_last_kept_behind(a, b.drop_last());
    }
}

/// Two lines go to a prompt as one, with the replacement in the place of the break and
/// nothing else changed. Line breaks at either end of a text are left out.
pub proof fn law_two_lines_become_one(
    a: Seq<char>,
    breaks: Seq<char>,
    b: Seq<char>,
    replacement: Seq<char>,
)
    requires
        on_one_line(a),
        on_one_line(b),
        only_breaks(breaks),
    ensures
        a.len() > 0 && a.last() != ' ' && breaks.len() > 0 && b.len() > 0 ==> stripped(
            a + breaks + b,
            replacement,
        ) == a + replacement + b,
        a.len() > 0 && a.last() == ' ' && b.len() > 0 ==> stripped(a + breaks + b, replacement)
            == a + b,
        stripped(breaks + b, replacement) == b,
        stripped(a + breaks, replacement) == a,
{
    lemma_one_line(a);
    lemma_one_line(b);
    law_plain_text_is_kept(a, replacement);
    law_plain_text_is_kept(b, replacement);
    lemma_breaks_behind(a, breaks, replacement);
    if a.len() > 0 && b.len() > 0 {
        assert(a[a.len() - 1] == a.last());
        assert(b[0] != '\n');
        if breaks.len() > 0 {
            law_breaks_become_the_replacement(a, breaks, b, replacement);
            assert(a + Seq::<char>::empty() =~= a);
        } else {
            let all = a + breaks + b;
            assert(all =~= a + b);
            assert forall|i: int| 0 <= i < all.len() implies !line_break(#[trigger] all[i]) by {
                if i < a.len() {
                    assert(all[i] == a[i]);
                } else {
                    assert(all[i] == b[i - a.len()]);
                }
            }
            law_plain_text_is_kept(all, replacement);
        }
    }
    lemma_breaks_before(breaks, b, replacement);
}

proof fn lemma_one_line(s: Seq<char>)
    requires
        on_one_line(s),
    ensures
        forall|i: int| 0 <= i < s.len() ==> !line_break(#[trigger] s[i]),
{
}

proof fn lemma_breaks_before(breaks: Seq<char>, b: Seq<char>, replacement: Seq<char>)
    requires
        only_breaks(breaks),
        on_one_line(b),
    ensures
        stripped(breaks + b, replacement) == b,
        b.len() == 0 ==> last_kept(breaks + b) is None,
        b.len() > 0 ==> !line_break((breaks + b).last()),
    decreases b.len(),
{
    let all = breaks + b;
    if b.len() == 0 {
        assert(Seq::<char>::empty() + breaks =~= all);
        lemma_breaks_behind(Seq::<char>::empty(), breaks, replacement);
        assert(stripped(all, replacement) =~= b);
    } else {
        let rest = b.drop_last();
        assert forall|i: int| 0 <= i < rest.len() implies #[trigger] rest[i] != '\n' && rest[i]
            != '\r' by {
            assert(rest[i] == b[i]);
        }
        lemma_breaks_before(breaks, rest, replacement);
        assert(all.drop_last() =~= breaks + rest);
        assert(all.last() == b[b.len() - 1]);
        assert(stripped(all, replacement) =~= b);
    }
}

/// Line breaks never reach a prompt: with a replacement that has none, neither
/// has the text.
pub proof fn law_no_line_break_reaches_a_prompt(s: Seq<char>, replacement: Seq<char>)
    requires
        forall|i: int| 0 <= i < replacement.len() ==> !line_break(#[trigger] replacement[i]),
    ensures
        forall|i: int|
            0 <= i < stripped(s, replacement).len() ==> !line_break(
                #[trigger] stripped(s, replacement)[i],
            ),
    decreases s.len(),
{
    if s.len() > 0 {
        law_no_line_break_reaches_a_prompt(s.drop_last(), replacement);
        let p = stripped(s.drop_last(), replacement);
        let o = stripped(s, replacement);
        assert forall|i: int| 0 <= i < o.len() implies !line_break(#[trigger] o[i]) by {
            if i < p.len() {
                assert(o[i] == p[i]);
            } else if i < o.len() - 1 {
                assert(o[i] == replacement[i - p.len()]);
            }
        }
    }
}

/// A text without line breaks stays as it is.
pub proof fn law_plain_text_is_kept(s: Seq<char>, replacement: Seq<char>)
    requires
        forall|i: int| 0 <= i < s.len() ==> !line_break(#[trigger] s[i]),
    ensures
        stripped(s, replacement) == s,
    decreases s.len(),
{
    if s.len() > 0 {
        let p = s.drop_last();
        assert forall|i: int| 0 <= i < p.len() implies !line_break(#[trigger] p[i]) by {
            assert(p[i] == s[i]);
        }
        law_plain_text_is_kept(p, replacement);
        assert(!line_break(s[s.len() - 1]));
        if p.len() > 0 {
            assert(p.last() == s[p.len() - 1]);
        }
        assert(p.push(s.last()) =~= s);
    }
}

/// With an empty replacement, what is left is the text without its line breaks.
pub proof fn law_only_line_breaks_go(s: Seq<char>)
    ensures
        stripped(s, seq![]) == s.filter(|c: char| !line_break(c)),
    decreases s.len(),
{
    reveal(Seq::filter);
    if s.len() > 0 {
        law_only_line_breaks_go(s.drop_last());
        assert(stripped(s.drop_last(), seq![]) + seq![] =~= stripped(s.drop_last(), seq![]));
    } else {
        assert(stripped(s, seq![]) =~= s);
    }
}

} // verus!
