//! The hold key as a keyboard hook sees it: presses that repeat, releases, and
//! every other key on the keyboard. Only the two edges of the one key count.

pub mod vk;

pub use crate::control::HotkeyEvent;

use vstd::prelude::*;

verus! {

pub const WM_KEYDOWN: u32 = 0x0100;

pub const WM_KEYUP: u32 = 0x0101;

pub const WM_SYSKEYDOWN: u32 = 0x0104;

pub const WM_SYSKEYUP: u32 = 0x0105;

/// A call of the hook: whether it is to be looked at, which key, which message.
#[derive(Clone, Copy, PartialEq, Eq, Debug, Structural)]
pub struct KeyCall {
    pub code: i32,
    pub vk: u32,
    pub message: u32,
}

/// The key that is watched, and whether it is down.
#[derive(Clone, Copy, PartialEq, Eq, Debug, Structural)]
pub struct HookState {
    pub key: u32,
    pub held: bool,
}

/// The call says that the watched key is down.
pub open spec fn is_press(key: u32, c: KeyCall) -> bool {
    c.code >= 0 && c.vk == key && (c.message == WM_KEYDOWN || c.message == WM_SYSKEYDOWN)
}

/// The call says that the watched key is up.
pub open spec fn is_release(key: u32, c: KeyCall) -> bool {
    c.code >= 0 && c.vk == key && (c.message == WM_KEYUP || c.message == WM_SYSKEYUP)
}

/// What a call makes of the state, and the event it gives.
pub open spec fn edge(s: HookState, c: KeyCall) -> (HookState, Option<HotkeyEvent>) {
    if is_press(s.key, c) {
        (
            HookState { held: true, ..s },
            if s.held {
                None
            } else {
                Some(HotkeyEvent::Down)
            },
        )
    } else if is_release(s.key, c) {
        (
            HookState { held: false, ..s },
            if s.held {
                Some(HotkeyEvent::Up)
            } else {
                None
            },
        )
    } else {
        (s, None)
    }
}

impl HookState {
    pub fn new(key: u32) -> (s: HookState)
        ensures
            s == (HookState { key, held: false }),
    {
        HookState { key, held: false }
    }

    /// Watches another key.
    pub fn rebind(&mut self, key: u32)
        ensures
            *final(self) == (HookState { key, held: old(self).held }),
    {
        self.key = key;
    }

    /// Takes in one call of the hook. The key itself is never swallowed.
    pub fn on_key(&mut self, c: KeyCall) -> (e: Option<HotkeyEvent>)
        ensures
            (*final(self), e) == edge(*old(self), c),
    {
        if c.code < 0 || c.vk != self.key {
            return None;
        }
        if c.message == WM_KEYDOWN || c.message == WM_SYSKEYDOWN {
            let held: bool = self.held;
            self.held = true;
            if held {
                None
            } else {
                Some(HotkeyEvent::Down)
            }
        } else if c.message == WM_KEYUP || c.message == WM_SYSKEYUP {
            let held: bool = self.held;
            self.held = false;
            if held {
                Some(HotkeyEvent::Up)
            } else {
                None
            }
        } else {
            None
        }
    }
}

/// The state after a list of calls.
pub open spec fn state_after(s: HookState, calls: Seq<KeyCall>) -> HookState
    decreases calls.len(),
{
    if calls.len() == 0 {
        s
    } else {
        edge(state_after(s, calls.drop_last()), calls.last()).0
    }
}

/// The events that a list of calls gives.
pub open spec fn events_of(s: HookState, calls: Seq<KeyCall>) -> Seq<HotkeyEvent>
    decreases calls.len(),
{
    if calls.len() == 0 {
        seq![]
    } else {
        let before = events_of(s, calls.drop_last());
        match edge(state_after(s, calls.drop_last()), calls.last()).1 {
            Some(e) => before.push(e),
            None => before,
        }
    }
}

/// Whatever the keyboard does, presses and releases alternate, and the first
/// event is a press: a key that repeats gives one press.
pub proof fn law_edges_alternate(key: u32, calls: Seq<KeyCall>)
    ensures
        ({
            let s = HookState { key, held: false };
            let events = events_of(s, calls);
            &&& state_after(s, calls).key == key
            &&& state_after(s, calls).held == (events.len() % 2 == 1)
            &&& forall|i: int|
                0 <= i < events.len() ==> #[trigger] events[i] == (if i % 2 == 0 {
                    HotkeyEvent::Down
                } else {
                    HotkeyEvent::Up
                })
        }),
    decreases calls.len(),
{
    if calls.len() > 0 {
        law_edges_alternate(key, calls.drop_last());
    }
}

} // verus!
