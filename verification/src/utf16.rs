//! Text in the encoding that Windows takes it in.

use vstd::prelude::*;

verus! {

/// `char::from_u32`: the character with a number, where the number is one of a
/// character; the numbers above 0x10FFFF and the surrogates are not.
pub assume_specification[ char::from_u32 ](i: u32) -> (r: Option<char>)
    ensures
        match r {
            Some(c) => c as u32 == i,
            None => i > 0x10FFFF || 0xD800 <= i <= 0xDFFF,
        },
;

/// The first half of a pair.
pub open spec fn high(u: u16) -> bool {
    0xD800 <= u <= 0xDBFF
}

/// The second half of a pair.
pub open spec fn low(u: u16) -> bool {
    0xDC00 <= u <= 0xDFFF
}

/// The character that a pair stands for.
pub open spec fn paired(a: u16, b: u16) -> char {
    (0x10000 + (a - 0xD800) * 0x400 + (b - 0xDC00)) as char
}

/// The units of one character.
pub open spec fn units(c: char) -> Seq<u16> {
    let n = c as int;
    if n < 0x10000 {
        seq![n as u16]
    } else {
        seq![
            (0xD800 + (n - 0x10000) / 0x400) as u16,
            (0xDC00 + (n - 0x10000) % 0x400) as u16,
        ]
    }
}

/// The units of a text.
pub open spec fn encoded(s: Seq<char>) -> Seq<u16>
    decreases s.len(),
{
    if s.len() == 0 {
        seq![]
    } else {
        encoded(s.drop_last()) + units(s.last())
    }
}

/// What stands for a unit that belongs to no character.
pub const REPLACEMENT: char = '\u{FFFD}';

/// The text that units stand for; half a pair without the other becomes a
/// replacement character.
pub open spec fn decoded(u: Seq<u16>) -> Seq<char>
    decreases u.len(),
{
    if u.len() == 0 {
        seq![]
    } else if !high(u[0]) && !low(u[0]) {
        seq![u[0] as char] + decoded(u.skip(1))
    } else if high(u[0]) && u.len() > 1 && low(u[1]) {
        seq![paired(u[0], u[1])] + decoded(u.skip(2))
    } else {
        seq![REPLACEMENT] + decoded(u.skip(1))
    }
}

fn push_units(out: &mut Vec<u16>, c: char)
    ensures
        final(out)@ == old(out)@ + units(c),
{
    let n: u32 = c as u32;
    if n < 0x10000 {
        out.push(n as u16);
    } else {
        let rest: u32 = n - 0x10000;
        out.push((0xD800 + rest / 0x400) as u16);
        out.push((0xDC00 + rest % 0x400) as u16);
    }
    assert(out@ =~= old(out)@ + units(c));
}

/// The units of a text.
pub fn encode(s: &str) -> (out: Vec<u16>)
    ensures
        out@ == encoded(s@),
{
    let mut out: Vec<u16> = Vec::new();
    for c in it: s.chars()
        invariant
            it.seq() == s@,
            out@ == encoded(s@.take(it.index() as int)),
    {
        let ghost done = s@.take(it.index() as int);
        proof {
            assert(s@.take(it.index() + 1).drop_last() =~= done);
            assert(s@.take(it.index() + 1).last() == c);
        }
        push_units(&mut out, c);
    }
    assert(s@.take(s@.len() as int) =~= s@);
    out
}

/// The character with a number.
fn character(n: u32) -> (c: char)
    requires
        n <= 0x10FFFF,
        !(0xD800 <= n <= 0xDFFF),
    ensures
        c as u32 == n,
{
    match char::from_u32(n) {
        Some(c) => c,
        None => REPLACEMENT,
    }
}

/// The text that units stand for.
pub fn decode(u: &[u16]) -> (out: String)
    ensures
        out@ == decoded(u@),
{
    let n: usize = u.len();
    let mut out: String = String::new();
    let mut i: usize = 0;
    assert(u@.skip(0) =~= u@);
    while i < n
        invariant
            i <= n,
            n == u@.len(),
            out@ + decoded(u@.skip(i as int)) == decoded(u@),
        decreases n - i,
    {
        let ghost rest = u@.skip(i as int);
        let a: u16 = u[i];
        assert(rest[0] == a);
        let ghost before = out@;
        if a < 0xD800 || a > 0xDFFF {
            let c: char = character(a as u32);
            out.push(c);
            i += 1;
            assert(u@.skip(i as int) =~= rest.skip(1));
            assert(c == a as char);
            assert(before + (seq![c] + decoded(rest.skip(1))) =~= before.push(c) + decoded(
                rest.skip(1),
            ));
        } else if a <= 0xDBFF && n - i > 1 && 0xDC00 <= u[i + 1] && u[i + 1] <= 0xDFFF {
            let b: u16 = u[i + 1];
            assert(rest[1] == b);
            let c: char = character(
                0x10000 + (a as u32 - 0xD800) * 0x400 + (b as u32 - 0xDC00),
            );
            out.push(c);
            i += 2;
            assert(u@.skip(i as int) =~= rest.skip(2));
            assert(c == paired(a, b));
            assert(before + (seq![c] + decoded(rest.skip(2))) =~= before.push(c) + decoded(
                rest.skip(2),
            ));
        } else {
            assert(rest.len() > 1 ==> rest[1] == u@[i + 1]);
            out.push(REPLACEMENT);
            i += 1;
            assert(u@.skip(i as int) =~= rest.skip(1));
            assert(before + (seq![REPLACEMENT] + decoded(rest.skip(1))) =~= before.push(REPLACEMENT)
                + decoded(rest.skip(1)));
        }
    }
    assert(u@.skip(n as int) =~= seq![]);
    assert(out@ + decoded(u@.skip(n as int)) =~= out@);
    out
}

/// Decoding what begins with the units of a character gives that character
/// first.
proof fn lemma_decode_one(c: char, rest: Seq<u16>)
    ensures
        decoded(units(c) + rest) == seq![c] + decoded(rest),
{
    let u = units(c) + rest;
    let n = c as int;
    if n < 0x10000 {
        assert(u[0] == n as u16);
        assert(u.skip(1) =~= rest);
    } else {
        let a = (0xD800 + (n - 0x10000) / 0x400) as u16;
        let b = (0xDC00 + (n - 0x10000) % 0x400) as u16;
        assert(u[0] == a && u[1] == b);
        assert(u.skip(2) =~= rest);
        assert(paired(a, b) == c);
    }
}

proof fn lemma_decode_after(s: Seq<char>, rest: Seq<u16>)
    ensures
        decoded(encoded(s) + rest) == s + decoded(rest),
    decreases s.len(),
{
    if s.len() == 0 {
        assert(encoded(s) + rest =~= rest);
        assert(s + decoded(rest) =~= decoded(rest));
    } else {
        let c = s.last();
        assert(encoded(s) + rest =~= encoded(s.drop_last()) + (units(c) + rest));
        lemma_decode_after(s.drop_last(), units(c) + rest);
        lemma_decode_one(c, rest);
        assert(s.drop_last() + (seq![c] + decoded(rest)) =~= s + decoded(rest));
    }
}

/// What was encoded decodes to what it was.
pub proof fn law_round_trip(s: Seq<char>)
    ensures
        decoded(encoded(s)) == s,
{
    lemma_decode_after(s, seq![]);
    assert(encoded(s) + seq![] =~= encoded(s));
    assert(s + decoded(seq![]) =~= s);
}

proof fn lemma_units_not_zero(c: char)
    requires
        c != '\0',
    ensures
        !units(c).contains(0u16),
{
    assert(c as int != 0);
}

/// A text without a zero character has no zero among its units, so that a zero
/// can mark its end.
pub proof fn law_no_zero_inside(s: Seq<char>)
    requires
        !s.contains('\0'),
    ensures
        !encoded(s).contains(0u16),
    decreases s.len(),
{
    if s.len() > 0 {
        let rest = s.drop_last();
        if rest.contains('\0') {
            let i = rest.index_of('\0');
            assert(s[i] == '\0');
        }
        law_no_zero_inside(rest);
        assert(s[s.len() - 1] == s.last());
        lemma_units_not_zero(s.last());
        assert forall|i: int| 0 <= i < encoded(s).len() implies encoded(s)[i] != 0 by {
            if i < encoded(rest).len() {
                assert(encoded(s)[i] == encoded(rest)[i]);
            } else {
                assert(encoded(s)[i] == units(s.last())[i - encoded(rest).len()]);
            }
        }
    }
}

} // verus!
