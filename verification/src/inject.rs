//! Getting text into whatever window has the focus, on Windows.
//!
//! Two ways. Paste: put the text on the clipboard, send Ctrl+V, put the old
//! clipboard back. One chord whatever the length, and the default. Type: send
//! the text as keystrokes, for where paste is blocked or means something else.

use vstd::prelude::*;
use crate::chars;
use crate::chars::{str_eq, to_ascii_lowercase};
use crate::utf16;
use crate::utf16::{decode, encode};

verus! {

#[derive(Clone, Copy, Debug, PartialEq, Eq, Structural)]
pub enum Mode {
    Paste,
    Type,
}

/// The way that a name stands for, in any case.
pub open spec fn mode_named(name: Seq<char>) -> Mode {
    let s = chars::ascii_lower(name);
    if s == "type"@ || s == "keystrokes"@ {
        Mode::Type
    } else {
        Mode::Paste
    }
}

impl Mode {
    pub fn from_name(s: &str) -> (m: Mode)
        ensures
            m == mode_named(s@),
    {
        let lower: String = to_ascii_lowercase(s);
        if str_eq(lower.as_str(), "type") || str_eq(lower.as_str(), "keystrokes") {
            Mode::Type
        } else {
            Mode::Paste
        }
    }

    /// What the way is called in a trace.
    pub fn name(self) -> (s: &'static str)
        ensures
            s@ == (match self {
                Mode::Paste => "paste"@,
                Mode::Type => "type"@,
            }),
    {
        match self {
            Mode::Paste => "paste",
            Mode::Type => "type",
        }
    }
}

/// What is to be done to insert a text.
#[derive(Clone, Copy, Debug, PartialEq, Eq, Structural)]
pub enum Plan {
    /// There is nothing to insert.
    Nothing,
    Paste,
    Type,
}

/// What is to be done to insert a text.
pub fn insert(text: &str, mode: Mode) -> (p: Plan)
    ensures
        p == (if text@.len() == 0 {
            Plan::Nothing
        } else {
            match mode {
                Mode::Paste => Plan::Paste,
                Mode::Type => Plan::Type,
            }
        }),
{
    if text.is_empty() {
        return Plan::Nothing;
    }
    match mode {
        Mode::Paste => Plan::Paste,
        Mode::Type => Plan::Type,
    }
}

// ---- paste ----------------------------------------------------------------------

pub const VK_SHIFT: u16 = 0x10;

pub const VK_CONTROL: u16 = 0x11;

pub const VK_MENU: u16 = 0x12;

pub const VK_V: u16 = 0x56;

pub const VK_LCONTROL: u16 = 0xA2;

pub const VK_RCONTROL: u16 = 0xA3;

/// The modifiers that could be down next to the hold key.
pub const MODIFIERS: [u16; 4] = [VK_RCONTROL, VK_LCONTROL, VK_SHIFT, VK_MENU];

/// A key that goes down or up.
#[derive(Clone, Copy, Debug, PartialEq, Eq, Structural)]
pub struct Stroke {
    pub vk: u16,
    pub up: bool,
}

/// The state of a key says that it is down now: its high bit is set.
pub open spec fn is_down(state: i16) -> bool {
    state < 0
}

/// The modifiers that are down, in their order.
pub open spec fn down_of(keys: Seq<u16>, states: Seq<i16>) -> Seq<u16>
    decreases keys.len(),
{
    if keys.len() == 0 {
        seq![]
    } else {
        let before = down_of(keys.drop_last(), states);
        if is_down(states[keys.len() - 1]) {
            before.push(keys.last())
        } else {
            before
        }
    }
}

/// Which of the modifiers are down, given the state of each.
pub fn held_modifiers(states: [i16; 4]) -> (held: Vec<u16>)
    ensures
        held@ == down_of(MODIFIERS@, states@),
{
    let mut held: Vec<u16> = Vec::new();
    let keys: [u16; 4] = MODIFIERS;
    let mut i: usize = 0;
    assert(keys@.take(0) =~= seq![]);
    while i < 4
        invariant
            i <= 4,
            keys@ == MODIFIERS@,
            held@ == down_of(keys@.take(i as int), states@),
        decreases 4 - i,
    {
        assert(keys@.take(i + 1).drop_last() =~= keys@.take(i as int));
        if states[i] < 0 {
            held.push(keys[i]);
        }
        i += 1;
    }
    assert(keys@.take(4) =~= keys@);
    held
}

/// All the keys of a list going up, or down.
pub open spec fn strokes(keys: Seq<u16>, up: bool) -> Seq<Stroke> {
    keys.map_values(|vk: u16| Stroke { vk, up })
}

/// The chord that pastes.
pub open spec fn chord() -> Seq<Stroke> {
    seq![
        Stroke { vk: VK_CONTROL, up: false },
        Stroke { vk: VK_V, up: false },
        Stroke { vk: VK_V, up: true },
        Stroke { vk: VK_CONTROL, up: true },
    ]
}

fn push_strokes(out: &mut Vec<Stroke>, keys: &[u16], up: bool)
    ensures
        final(out)@ == old(out)@ + strokes(keys@, up),
{
    let ghost before = out@;
    let mut i: usize = 0;
    while i < keys.len()
        invariant
            i <= keys@.len(),
            out@ == before + strokes(keys@.take(i as int), up),
        decreases keys@.len() - i,
    {
        out.push(Stroke { vk: keys[i], up });
        i += 1;
        assert(out@ =~= before + strokes(keys@.take(i as int), up));
    }
    assert(keys@.take(i as int) =~= keys@);
}

/// The strokes of a paste. The modifiers that the user is physically holding
/// would combine with the chord into something else, so they are lifted first
/// and put down again after.
pub fn paste_strokes(held: &[u16]) -> (out: Vec<Stroke>)
    ensures
        out@ == strokes(held@, true) + chord() + strokes(held@, false),
{
    let mut out: Vec<Stroke> = Vec::new();
    push_strokes(&mut out, held, true);
    out.push(Stroke { vk: VK_CONTROL, up: false });
    out.push(Stroke { vk: VK_V, up: false });
    out.push(Stroke { vk: VK_V, up: true });
    out.push(Stroke { vk: VK_CONTROL, up: true });
    assert(out@ =~= strokes(held@, true) + chord());
    push_strokes(&mut out, held, false);
    out
}

/// The key is down after a list of strokes, given whether it was before.
pub open spec fn down_after(vk: u16, was: bool, done: Seq<Stroke>) -> bool
    decreases done.len(),
{
    if done.len() == 0 {
        was
    } else if done.last().vk == vk {
        !done.last().up
    } else {
        down_after(vk, was, done.drop_last())
    }
}

proof fn lemma_down_after_strokes(vk: u16, was: bool, before: Seq<Stroke>, keys: Seq<u16>, up: bool)
    ensures
        down_after(vk, was, before + strokes(keys, up)) == (if keys.contains(vk) {
            !up
        } else {
            down_after(vk, was, before)
        }),
    decreases keys.len(),
{
    let all = before + strokes(keys, up);
    if keys.len() == 0 {
        assert(all =~= before);
    } else {
        assert(all.last() == Stroke { vk: keys.last(), up });
        assert(all.drop_last() =~= before + strokes(keys.drop_last(), up));
        lemma_down_after_strokes(vk, was, before, keys.drop_last(), up);
        if keys.drop_last().contains(vk) {
            let i = keys.drop_last().index_of(vk);
            assert(keys[i] == vk);
        }
        if keys.contains(vk) && keys.last() != vk {
            let i = keys.index_of(vk);
            assert(keys.drop_last()[i] == vk);
        }
        if keys.last() == vk {
            assert(keys[keys.len() - 1] == vk);
        }
    }
}

/// A paste leaves every key that it lifted down again, and leaves no key of its
/// own down.
pub proof fn law_paste_leaves_the_keyboard_as_it_was(held: Seq<u16>, vk: u16, was: bool)
    requires
        held.contains(vk) ==> was,
        !held.contains(vk) && (vk == VK_CONTROL || vk == VK_V) ==> !was,
    ensures
        down_after(vk, was, strokes(held, true) + chord() + strokes(held, false)) == was,
{
    let lifted = strokes(held, true);
    lemma_down_after_strokes(vk, was, lifted + chord(), held, false);
    if !held.contains(vk) {
        lemma_down_after_strokes(vk, was, Seq::<Stroke>::empty(), held, true);
        assert(Seq::<Stroke>::empty() + lifted =~= lifted);
        let all = lifted + chord();
        assert(all.last() == Stroke { vk: VK_CONTROL, up: true });
        let a = all.drop_last();
        assert(a.last() == Stroke { vk: VK_V, up: true });
        let b = a.drop_last();
        assert(b.last() == Stroke { vk: VK_V, up: false });
        let c = b.drop_last();
        assert(c.last() == Stroke { vk: VK_CONTROL, up: false });
        assert(c.drop_last() =~= lifted);
        reveal_with_fuel(down_after, 6);
        assert(down_after(vk, was, Seq::<Stroke>::empty()) == was);
    }
}

// ---- the clipboard ----------------------------------------------------------------

/// A text as the clipboard holds it: its units and a zero.
pub fn clipboard_units(text: &str) -> (out: Vec<u16>)
    ensures
        out@ == utf16::encoded(text@).push(0),
{
    let mut out: Vec<u16> = encode(text);
    out.push(0);
    out
}

/// The units before the first zero.
pub open spec fn before_zero(units: Seq<u16>) -> Seq<u16>
    decreases units.len(),
{
    if units.len() == 0 || units[0] == 0 {
        seq![]
    } else {
        seq![units[0]] + before_zero(units.skip(1))
    }
}

proof fn lemma_before_zero(units: Seq<u16>, n: int)
    requires
        0 <= n <= units.len(),
        forall|i: int| 0 <= i < n ==> #[trigger] units[i] != 0,
        n == units.len() || units[n] == 0,
    ensures
        before_zero(units) == units.take(n),
    decreases n,
{
    if n == 0 {
        assert(units.take(0) =~= seq![]);
    } else {
        let rest = units.skip(1);
        assert forall|i: int| 0 <= i < n - 1 implies #[trigger] rest[i] != 0 by {
            assert(rest[i] == units[i + 1]);
        }
        lemma_before_zero(rest, n - 1);
        assert(units[0] != 0);
        assert(seq![units[0]] + rest.take(n - 1) =~= units.take(n));
    }
}

/// The text that the clipboard holds: what stands before the first zero, or
/// everything where there is none.
pub fn clipboard_text(units: &[u16]) -> (out: String)
    ensures
        out@ == utf16::decoded(before_zero(units@)),
{
    let n: usize = units.len();
    let mut kept: Vec<u16> = Vec::new();
    let mut i: usize = 0;
    while i < n && units[i] != 0
        invariant
            i <= n,
            n == units@.len(),
            kept@ == units@.take(i as int),
            forall|k: int| 0 <= k < i ==> #[trigger] units@[k] != 0,
        decreases n - i,
    {
        kept.push(units[i]);
        i += 1;
        assert(kept@ =~= units@.take(i as int));
    }
    proof {
        lemma_before_zero(units@, i as int);
    }
    decode(kept.as_slice())
}

/// What was put on the clipboard reads back as it was.
pub proof fn law_clipboard_round_trip(s: Seq<char>)
    requires
        !s.contains('\0'),
    ensures
        utf16::decoded(before_zero(utf16::encoded(s).push(0))) == s,
{
    let u = utf16::encoded(s);
    utf16::law_no_zero_inside(s);
    assert forall|i: int| 0 <= i < u.len() implies #[trigger] u.push(0)[i] != 0 by {
        assert(u[i] == u.push(0)[i]);
        assert(u.contains(u[i]));
    }
    lemma_before_zero(u.push(0), u.len() as int);
    assert(u.push(0).take(u.len() as int) =~= u);
    utf16::law_round_trip(s);
}

/// How often opening the clipboard is tried.
pub const OPEN_TRIES: u32 = 20;

/// How long to wait between two tries.
pub const OPEN_PAUSE_MS: u64 = 5;

/// What to do after a try to open the clipboard.
pub enum Opening {
    Opened,
    /// Pause, then try again.
    Again,
    Failed(String),
}

/// What to do after a try, given how many there have been. The clipboard is
/// shared: another process can hold it open, so a refusal is tried again.
pub fn after_try(opened: bool, tries: u32) -> (o: Opening)
    ensures
        opened ==> o is Opened,
        !opened && tries < OPEN_TRIES ==> o is Again,
        !opened && tries >= OPEN_TRIES ==> (o matches Opening::Failed(e) && e@
            == "could not open the clipboard"@),
{
    if opened {
        Opening::Opened
    } else if tries < OPEN_TRIES {
        Opening::Again
    } else {
        Opening::Failed("could not open the clipboard".to_owned())
    }
}

// ---- type -----------------------------------------------------------------------

/// One unit of text as a key that goes down or up.
#[derive(Clone, Copy, Debug, PartialEq, Eq, Structural)]
pub struct UnitStroke {
    pub unit: u16,
    pub up: bool,
}

/// Each unit goes down and up before the next.
pub open spec fn unit_strokes(units: Seq<u16>) -> Seq<UnitStroke> {
    Seq::new(
        2 * units.len(),
        |i: int| UnitStroke { unit: units[i / 2], up: i % 2 == 1 },
    )
}

/// How many strokes go out in one batch: with more the target may drop some.
pub const BATCH: usize = 512;

/// A text on its way out as keystrokes.
pub struct Typing {
    pub strokes: Vec<UnitStroke>,
    /// How many have gone out.
    pub sent: usize,
}

impl Typing {
    pub open spec fn wf(self) -> bool {
        self.sent <= self.strokes@.len()
    }

    /// Where the next batch ends.
    pub open spec fn batch_end(self) -> int {
        if self.strokes@.len() - self.sent > BATCH {
            self.sent + BATCH
        } else {
            self.strokes@.len() as int
        }
    }

    pub fn new(text: &str) -> (t: Typing)
        ensures
            t.wf(),
            t.strokes@ == unit_strokes(utf16::encoded(text@)),
            t.sent == 0,
    {
        let units: Vec<u16> = encode(text);
        let mut strokes: Vec<UnitStroke> = Vec::new();
        let mut i: usize = 0;
        while i < units.len()
            invariant
                i <= units@.len(),
                strokes@ == unit_strokes(units@.take(i as int)),
            decreases units@.len() - i,
        {
            let ghost before = strokes@;
            strokes.push(UnitStroke { unit: units[i], up: false });
            strokes.push(UnitStroke { unit: units[i], up: true });
            i += 1;
            proof {
                let want = unit_strokes(units@.take(i as int));
                assert(before.len() == 2 * (i - 1));
                assert forall|k: int| 0 <= k < want.len() implies want[k] == strokes@[k] by {
                    if k < 2 * (i - 1) {
                        assert(before[k] == strokes@[k]);
                        assert(units@.take(i - 1)[k / 2] == units@.take(i as int)[k / 2]);
                    }
                }
                assert(strokes@ =~= want);
            }
        }
        assert(units@.take(i as int) =~= units@);
        Typing { strokes, sent: 0 }
    }

    /// Where the next batch begins and ends, if there is one.
    pub fn next_batch(&self) -> (b: Option<(usize, usize)>)
        requires
            self.wf(),
        ensures
            b == (if self.sent == self.strokes@.len() {
                None
            } else {
                Some((self.sent, self.batch_end() as usize))
            }),
            b matches Some((from, to)) ==> from < to <= self.strokes@.len() && to - from <= BATCH,
    {
        let n: usize = self.strokes.len();
        if self.sent == n {
            None
        } else if n - self.sent > BATCH {
            Some((self.sent, self.sent + BATCH))
        } else {
            Some((self.sent, n))
        }
    }

    /// Takes in how many strokes of the batch went out. Fewer than all means
    /// that the target's window does not take them.
    pub fn batch_sent(&mut self, count: usize) -> (r: Result<(), String>)
        requires
            old(self).wf(),
        ensures
            final(self).wf(),
            final(self).strokes == old(self).strokes,
            r is Ok <==> old(self).sent + count == old(self).batch_end(),
            r is Ok ==> final(self).sent == old(self).batch_end(),
            r matches Err(e) ==> final(self).sent == old(self).sent && e@
                == "SendInput was blocked, most likely by UIPI"@,
    {
        let n: usize = self.strokes.len();
        let end: usize = if n - self.sent > BATCH {
            self.sent + BATCH
        } else {
            n
        };
        if count != end - self.sent {
            return Err("SendInput was blocked, most likely by UIPI".to_owned());
        }
        self.sent = end;
        Ok(())
    }
}

} // verus!
