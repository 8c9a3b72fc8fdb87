//! A plain status pill: an edge, a dot and one line of text, repainted only when
//! something changed.

use vstd::prelude::*;
use crate::chars::{push_str, str_eq};
use crate::geometry;
use crate::geometry::half_of;

verus! {

#[derive(Clone, Copy, PartialEq, Eq, Debug, Structural)]
pub enum OverlayState {
    Hidden,
    Listening,
    Finalising,
    Error,
}

pub const WIDTH: i32 = 460;

pub const HEIGHT: i32 = 56;

pub const MARGIN_BOTTOM: i32 = 120;

/// The pill: whether it has a window, and what it shows.
pub struct Overlay {
    pub has_window: bool,
    pub state: OverlayState,
    pub text: String,
}

/// What the window has to do after a change.
#[derive(Clone, Copy, PartialEq, Eq, Debug, Structural)]
pub enum Change {
    Nothing,
    Hide,
    /// Paint it and put it up.
    Paint,
}

impl Overlay {
    /// An overlay that draws nothing, for when there can be no window.
    pub fn disabled() -> (o: Overlay)
        ensures
            !o.has_window,
            o.state == OverlayState::Hidden,
            o.text@ == Seq::<char>::empty(),
    {
        Overlay { has_window: false, state: OverlayState::Hidden, text: String::new() }
    }

    /// An overlay whose window has been made, and is down.
    pub fn create() -> (o: Overlay)
        ensures
            o.has_window,
            o.state == OverlayState::Hidden,
            o.text@ == Seq::<char>::empty(),
    {
        Overlay { has_window: true, state: OverlayState::Hidden, text: String::new() }
    }

    /// Records a new state and new words. Says what the window has to do, which
    /// is nothing where nothing changed.
    pub fn set(&mut self, state: OverlayState, text: &str) -> (c: Change)
        ensures
            final(self).state == state,
            final(self).text@ == text@,
            final(self).has_window == old(self).has_window,
            c == (if !old(self).has_window || (old(self).state == state && old(self).text@
                == text@) {
                Change::Nothing
            } else if state == OverlayState::Hidden {
                Change::Hide
            } else {
                Change::Paint
            }),
    {
        if self.state == state && str_eq(self.text.as_str(), text) {
            return Change::Nothing;
        }
        self.state = state;
        self.text = text.to_owned();
        if !self.has_window {
            Change::Nothing
        } else if state == OverlayState::Hidden {
            Change::Hide
        } else {
            Change::Paint
        }
    }

    /// The line of text.
    pub fn label(&self) -> (s: String)
        ensures
            s@ == (if self.state == OverlayState::Listening && self.text@.len() == 0 {
                "Listening..."@
            } else if self.state == OverlayState::Finalising && self.text@.len() == 0 {
                "Finishing..."@
            } else if self.state == OverlayState::Error {
                "Flow: "@ + self.text@
            } else {
                self.text@
            }),
    {
        let empty: bool = self.text.as_str().is_empty();
        match self.state {
            OverlayState::Listening if empty => "Listening...".to_owned(),
            OverlayState::Finalising if empty => "Finishing...".to_owned(),
            OverlayState::Error => {
                let mut s: String = "Flow: ".to_owned();
                push_str(&mut s, self.text.as_str());
                s
            },
            _ => self.text.clone(),
        }
    }

    /// The colours of the edge and of the dot, as the words that GDI wants.
    pub fn colours(&self) -> (c: (u32, u32))
        ensures
            c == (match self.state {
                OverlayState::Listening => (0x66_CC_00u32, 0x66_FF_44u32),
                OverlayState::Finalising => (0x00_99_FFu32, 0x22_BB_FFu32),
                OverlayState::Error => (0x33_33_DDu32, 0x44_44_FFu32),
                OverlayState::Hidden => (0u32, 0u32),
            }),
    {
        match self.state {
            OverlayState::Listening => (0x66_CC_00, 0x66_FF_44),
            OverlayState::Finalising => (0x00_99_FF, 0x22_BB_FF),
            OverlayState::Error => (0x33_33_DD, 0x44_44_FF),
            OverlayState::Hidden => (0, 0),
        }
    }
}

/// Where the pill goes on a screen: centred, a margin above the bottom.
pub fn position(screen_w: i32, screen_h: i32) -> (p: (i64, i64))
    ensures
        p.0 == geometry::half(screen_w - WIDTH),
        p.1 == screen_h - MARGIN_BOTTOM - HEIGHT,
{
    (
        half_of(screen_w as i64 - WIDTH as i64),
        screen_h as i64 - MARGIN_BOTTOM as i64 - HEIGHT as i64,
    )
}

/// Stamps full opacity across a buffer with four bytes to a pixel; an odd rest
/// is left alone.
pub fn make_opaque(pixels: &mut [u8])
    ensures
        final(pixels)@.len() == old(pixels)@.len(),
        forall|i: int| #![trigger final(pixels)@[i]]
            0 <= i < old(pixels)@.len() ==> final(pixels)@[i] == (if i % 4 == 3 {
                255
            } else {
                old(pixels)@[i]
            }),
{
    let ghost before = pixels@;
    let n: usize = pixels.len();
    let mut i: usize = 0;
    while i < n
        invariant
            i <= n,
            n == before.len(),
            pixels@.len() == before.len(),
            forall|k: int| #![trigger pixels@[k]]
                0 <= k < before.len() ==> pixels@[k] == (if k < i && k % 4 == 3 {
                    255
                } else {
                    before[k]
                }),
        decreases n - i,
    {
        if i % 4 == 3 {
            pixels[i] = 255;
        }
        i += 1;
    }
}

} // verus!
