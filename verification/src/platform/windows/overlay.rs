//! The status pill as it is put on a Windows screen: colours in the order GDI
//! wants them, the mask that rounds its ends, and where everything stands in it.

use vstd::prelude::*;
use crate::geometry;
use crate::geometry::half_of;
use crate::overlay_model;
use crate::overlay_model::{OverlayModel, OverlayState, Tick, BARS};

verus! {

/// A colour as the 0x00BBGGRR word that GDI wants.
pub open spec fn colour_word(rgb: Seq<u8>) -> int {
    rgb[2] * 65536 + rgb[1] * 256 + rgb[0]
}

/// A colour as the 0x00BBGGRR word that GDI wants.
pub fn colorref(rgb: [u8; 3]) -> (word: u32)
    ensures
        word == colour_word(rgb@),
{
    rgb[2] as u32 * 65536 + rgb[1] as u32 * 256 + rgb[0] as u32
}

/// The colour in such a word; its highest byte is passed over.
pub fn channels(word: u32) -> (rgb: [u8; 3])
    ensures
        rgb@ == seq![
            (word as int % 256) as u8,
            (word as int / 256 % 256) as u8,
            (word as int / 65536 % 256) as u8,
        ],
{
    let rgb: [u8; 3] = [
        (word % 256) as u8,
        (word / 256 % 256) as u8,
        (word / 65536 % 256) as u8,
    ];
    assert(rgb@ =~= seq![
        (word as int % 256) as u8,
        (word as int / 256 % 256) as u8,
        (word as int / 65536 % 256) as u8,
    ]);
    rgb
}

/// A colour comes back from its word as it went in.
pub proof fn law_colours_survive_the_trip(rgb: Seq<u8>)
    requires
        rgb.len() == 3,
    ensures
        0 <= colour_word(rgb) < 0x100_0000,
        colour_word(rgb) % 256 == rgb[0],
        colour_word(rgb) / 256 % 256 == rgb[1],
        colour_word(rgb) / 65536 % 256 == rgb[2],
{
}

// ---- the mask -----------------------------------------------------------------

/// The radius that a rounded rectangle of this size can have.
pub open spec fn mask_radius(w: int, h: int, radius: int) -> int {
    let most = if w < h {
        w / 2
    } else {
        h / 2
    };
    if radius < 0 {
        0
    } else if radius > most {
        most
    } else {
        radius
    }
}

/// Twice how far the middle of a pixel lies outside the straight part of an
/// edge, or 0 where it does not.
pub open spec fn beyond(p: int, len: int, r: int) -> int {
    let middle = 2 * p + 1;
    if 2 * r - middle > 0 {
        2 * r - middle
    } else if middle - 2 * (len - r) > 0 {
        middle - 2 * (len - r)
    } else {
        0
    }
}

/// A pixel lies in the square that a corner is cut from.
pub open spec fn in_corner(x: int, y: int, w: int, h: int, r: int) -> bool {
    beyond(x, w, r) > 0 && beyond(y, h, r) > 0
}

fn beyond_edge(p: i32, len: i32, r: i32) -> (d: i32)
    requires
        0 <= p < len,
        0 <= r,
        2 * r <= len,
    ensures
        d == beyond(p as int, len as int, r as int),
{
    let middle: i64 = 2 * p as i64 + 1;
    let near: i64 = 2 * r as i64 - middle;
    let far: i64 = middle - 2 * (len as i64 - r as i64);
    if near > 0 {
        near as i32
    } else if far > 0 {
        far as i32
    } else {
        0
    }
}

/// The value of one pixel of a mask.
pub open spec fn masked<C: Fn(i32, i32, i32, u8) -> u8>(
    value: u8,
    x: int,
    y: int,
    w: int,
    h: int,
    r: int,
    opacity: u8,
    corner: C,
) -> bool {
    if in_corner(x, y, w, h, r) {
        corner.ensures((beyond(x, w, r) as i32, beyond(y, h, r) as i32, r as i32, opacity), value)
    } else {
        value == opacity
    }
}

/// Coverage of a rounded rectangle, one byte per pixel. Everything but the
/// corners has the full opacity. A pixel of a corner gets what `corner` makes of
/// twice its distances from the corner's centre, the radius and the opacity.
pub fn rounded_mask<C: Fn(i32, i32, i32, u8) -> u8>(
    w: i32,
    h: i32,
    radius: i32,
    opacity: u8,
    corner: C,
) -> (mask: Vec<u8>)
    requires
        0 <= w,
        0 <= h,
        w * h <= i32::MAX,
        forall|dx: i32, dy: i32, r: i32|
            dx > 0 && dy > 0 ==> #[trigger] corner.requires((dx, dy, r, opacity)),
    ensures
        mask@.len() == w * h,
        forall|x: int, y: int| #![trigger mask@[y * w + x]]
            0 <= x < w && 0 <= y < h ==> masked(
                mask@[y * w + x],
                x,
                y,
                w as int,
                h as int,
                mask_radius(w as int, h as int, radius as int),
                opacity,
                corner,
            ),
{
    let most: i32 = if w < h {
        w / 2
    } else {
        h / 2
    };
    let r: i32 = if radius < 0 {
        0
    } else if radius > most {
        most
    } else {
        radius
    };
    let ghost ri = mask_radius(w as int, h as int, radius as int);
    let mut mask: Vec<u8> = Vec::new();
    let mut y: i32 = 0;
    assert(0 * w == 0);
    while y < h
        invariant
            0 <= w,
            0 <= y <= h,
            w * h <= i32::MAX,
            ri == r,
            0 <= r,
            2 * r <= w,
            2 * r <= h,
            mask@.len() == y * w,
            forall|dx: i32, dy: i32, r: i32|
                dx > 0 && dy > 0 ==> #[trigger] corner.requires((dx, dy, r, opacity)),
            forall|a: int, b: int| #![trigger mask@[b * w + a]]
                0 <= a < w && 0 <= b < y ==> masked(
                    mask@[b * w + a],
                    a,
                    b,
                    w as int,
                    h as int,
                    ri,
                    opacity,
                    corner,
                ),
        decreases h - y,
    {
        let dy: i32 = beyond_edge(y, h, r);
        let mut x: i32 = 0;
        while x < w
            invariant
                0 <= x <= w,
                0 <= y < h,
                w * h <= i32::MAX,
                ri == r,
                0 <= r,
                2 * r <= w,
                2 * r <= h,
                dy == beyond(y as int, h as int, ri),
                mask@.len() == y * w + x,
                forall|dx: i32, dy: i32, r: i32|
                    dx > 0 && dy > 0 ==> #[trigger] corner.requires((dx, dy, r, opacity)),
                forall|a: int, b: int| #![trigger mask@[b * w + a]]
                    0 <= a < w && 0 <= b && (b < y || b == y && a < x) ==> masked(
                        mask@[b * w + a],
                        a,
                        b,
                        w as int,
                        h as int,
                        ri,
                        opacity,
                        corner,
                    ),
            decreases w - x,
        {
            let dx: i32 = beyond_edge(x, w, r);
            let value: u8 = if dx > 0 && dy > 0 {
                corner(dx, dy, r, opacity)
            } else {
                opacity
            };
            let ghost held = mask@;
            mask.push(value);
            proof {
                assert(masked(value, x as int, y as int, w as int, h as int, ri, opacity, corner));
                assert forall|a: int, b: int|
                    0 <= a < w && 0 <= b && (b < y || b == y && a < x + 1) implies masked(
                    #[trigger] mask@[b * w + a],
                    a,
                    b,
                    w as int,
                    h as int,
                    ri,
                    opacity,
                    corner,
                ) by {
                    if b < y {
                        assert(0 <= b * w && b * w + a < y * w) by (nonlinear_arith)
                            requires
                                0 <= a < w,
                                0 <= b < y,
                        ;
                        assert(held[b * w + a] == mask@[b * w + a]);
                    } else if a < x {
                        assert(0 <= y * w) by (nonlinear_arith)
                            requires
                                0 <= y,
                                0 <= w,
                        ;
                        assert(held[b * w + a] == mask@[b * w + a]);
                    }
                }
            }
            x += 1;
        }
        assert((y + 1) * w == y * w + w) by (nonlinear_arith);
        y += 1;
    }
    assert(h * w == w * h) by (nonlinear_arith);
    mask
}

/// A byte of a premultiplied pixel: the colour bytes are scaled by the alpha,
/// the last byte is the alpha, and a pixel without alpha is cleared.
pub open spec fn premultiplied(byte: u8, alpha: u8, channel: int) -> int {
    if alpha == 0 {
        0
    } else if channel == 3 {
        alpha as int
    } else {
        byte * alpha / 255
    }
}

/// Applies the mask as the alpha channel and premultiplies the colour.
pub fn premultiply_with_mask(pixels: &mut [u8], mask: &[u8])
    requires
        mask@.len() * 4 <= old(pixels)@.len(),
    ensures
        final(pixels)@.len() == old(pixels)@.len(),
        forall|i: int| #![trigger final(pixels)@[i]]
            0 <= i < old(pixels)@.len() ==> final(pixels)@[i] == (if i / 4 < mask@.len() {
                premultiplied(old(pixels)@[i], mask@[i / 4], i % 4)
            } else {
                old(pixels)@[i] as int
            }),
{
    let ghost before = pixels@;
    let total: usize = pixels.len();
    let n: usize = mask.len();
    let mut k: usize = 0;
    while k < n
        invariant
            k <= n,
            n == mask@.len(),
            n * 4 <= total,
            total == before.len(),
            pixels@.len() == before.len(),
            forall|i: int| #![trigger pixels@[i]]
                0 <= i < before.len() ==> pixels@[i] == (if i / 4 < k {
                    premultiplied(before[i], mask@[i / 4], i % 4)
                } else {
                    before[i] as int
                }),
        decreases n - k,
    {
        let a: u8 = mask[k];
        let p: usize = k * 4;
        let ghost held = pixels@;
        if a == 0 {
            pixels[p] = 0;
            pixels[p + 1] = 0;
            pixels[p + 2] = 0;
            pixels[p + 3] = 0;
        } else {
            let b0: u8 = scale(pixels[p], a);
            pixels[p] = b0;
            let b1: u8 = scale(pixels[p + 1], a);
            pixels[p + 1] = b1;
            let b2: u8 = scale(pixels[p + 2], a);
            pixels[p + 2] = b2;
            pixels[p + 3] = a;
        }
        proof {
            assert forall|i: int| 0 <= i < before.len() implies #[trigger] pixels@[i] == (if i / 4
                < k + 1 {
                premultiplied(before[i], mask@[i / 4], i % 4)
            } else {
                before[i] as int
            }) by {
                let kept = held[i];
            }
        }
        k += 1;
    }
}

fn scale(byte: u8, alpha: u8) -> (r: u8)
    ensures
        r == byte * alpha / 255,
{
    assert(byte * alpha / 255 <= 255) by (nonlinear_arith)
        requires
            0 <= byte <= 255,
            0 <= alpha <= 255,
    ;
    assert(0 <= byte * alpha <= 65025) by (nonlinear_arith)
        requires
            0 <= byte <= 255,
            0 <= alpha <= 255,
    ;
    (byte as u32 * alpha as u32 / 255) as u8
}

// ---- where everything stands ----------------------------------------------------

/// The measures of the pill in device pixels.
#[derive(Clone, Copy)]
pub struct Metrics {
    pub pad: i32,
    pub dot_radius: i32,
    pub dot_to_wave: i32,
    pub bar_width: i32,
    pub bar_gap: i32,
    pub wave_to_text: i32,
    pub caret_space: i32,
    pub caret_offset: i32,
    pub caret_width: i32,
    pub caret_height: i32,
    /// Room kept between the caret and what stands right of the words.
    pub caret_clearance: i32,
    pub keycap_height: i32,
    pub keycap_pad: i32,
    pub hold_to_keycap: i32,
    pub hint_to_text: i32,
    pub bottom_margin: i32,
}

/// A rectangle, its right and bottom edges outside it.
#[derive(Clone, Copy, PartialEq, Eq, Debug, Structural)]
pub struct Rect {
    pub left: i64,
    pub top: i64,
    pub right: i64,
    pub bottom: i64,
}

/// A rectangle with these edges.
pub open spec fn rect(left: int, top: int, right: int, bottom: int) -> Rect {
    Rect { left: left as i64, top: top as i64, right: right as i64, bottom: bottom as i64 }
}

/// A measure that is never less than a floor.
pub open spec fn at_least(v: i32, floor: i32) -> int {
    if v < floor {
        floor as int
    } else {
        v as int
    }
}

fn no_less(v: i32, floor: i32) -> (r: i64)
    ensures
        r == at_least(v, floor),
{
    if v < floor {
        floor as i64
    } else {
        v as i64
    }
}

impl Metrics {
    /// Where the waveform begins.
    pub open spec fn wave_start(self) -> int {
        self.pad + self.dot_radius * 2 + self.dot_to_wave
    }

    /// From the left edge of one bar to that of the next.
    pub open spec fn bar_pitch(self) -> int {
        at_least(self.bar_width, 2) + at_least(self.bar_gap, 2)
    }

    /// How wide the waveform is: so many bars, and a gap between each two.
    pub open spec fn wave_width(self) -> int {
        at_least(self.bar_width, 2) * BARS + at_least(self.bar_gap, 2) * (BARS - 1)
    }

    /// The recording dot, in the middle of the height.
    pub open spec fn dot_rect(self, h: int) -> Rect {
        rect(
            self.pad as int,
            geometry::half(h) - self.dot_radius,
            self.pad + self.dot_radius * 2,
            geometry::half(h) + self.dot_radius,
        )
    }

    /// A bar of a height, in the middle of the pill's and a pitch further right than
    /// the one before.
    pub open spec fn bar_rect(self, h: int, index: int, height: int) -> Rect {
        let left = self.wave_start() + index * self.bar_pitch();
        let top = geometry::half(h) - geometry::half(height);
        rect(left, top, left + at_least(self.bar_width, 2), top + height)
    }

    /// Only a tall bar has rounded ends.
    pub open spec fn bar_rounded(self, height: int) -> bool {
        height > at_least(self.bar_width, 2) * 3
    }

    /// The recording dot, in the middle of the height.
    pub fn dot(&self, h: i32) -> (r: Rect)
        ensures
            r == self.dot_rect(h as int),
    {
        let middle: i64 = half_of(h as i64);
        Rect {
            left: self.pad as i64,
            top: middle - self.dot_radius as i64,
            right: self.pad as i64 + self.dot_radius as i64 * 2,
            bottom: middle + self.dot_radius as i64,
        }
    }

    /// One bar of the waveform, and whether its ends are rounded: only a tall
    /// one's are, since rounding a rectangle a couple of pixels across leaves
    /// nothing of it.
    pub fn bar(&self, h: i32, index: usize, height: i32) -> (r: (Rect, bool))
        requires
            index < BARS,
        ensures
            r.0 == self.bar_rect(h as int, index as int, height as int),
            r.1 == self.bar_rounded(height as int),
    {
        let width: i64 = no_less(self.bar_width, 2);
        let pitch: i64 = width + no_less(self.bar_gap, 2);
        assert(0 <= index * pitch <= 11 * pitch) by (nonlinear_arith)
            requires
                0 <= index < 11,
                0 <= pitch,
        ;
        let left: i64 = self.pad as i64 + self.dot_radius as i64 * 2 + self.dot_to_wave as i64
            + index as i64 * pitch;
        let top: i64 = half_of(h as i64) - half_of(height as i64);
        (
            Rect { left, top, right: left + width, bottom: top + height as i64 },
            height as i64 > width * 3,
        )
    }
}

/// Where the reminder of the key stands.
#[derive(Clone, Copy, PartialEq, Eq, Debug, Structural)]
pub struct Hint {
    pub keycap: Rect,
    /// Where the name of the key begins inside its cap.
    pub name_left: i64,
    /// Where the word before the cap begins.
    pub hold_left: i64,
}

/// Where the words stand, and what is drawn to the right of them.
#[derive(Clone, Copy, PartialEq, Eq, Debug, Structural)]
pub struct Layout {
    /// The reminder is drawn while the key is held, and only then.
    pub hint: Option<Hint>,
    pub text_left: i64,
    /// Where the words have to stop.
    pub right_edge: i64,
    /// How wide the words may be.
    pub text_max: i64,
}

impl Layout {
    /// The edges are sums of device-pixel measures, and no larger than these can
    /// make them.
    pub open spec fn in_range(self) -> bool {
        &&& -0x10_0000_0000 <= self.text_left <= 0x10_0000_0000
        &&& -0x10_0000_0000 <= self.right_edge <= 0x10_0000_0000
    }
}

/// Where the reminder of the key stands, given how wide its texts are.
pub open spec fn hint_at(m: Metrics, w: int, h: int, name_width: int, hold_width: int) -> (
    int,
    int,
    int,
) {
    let cap_left = w - m.pad - (name_width + m.keycap_pad * 2);
    let hold_left = cap_left - m.hold_to_keycap - hold_width;
    (cap_left, geometry::half(h) - geometry::half(m.keycap_height as int), hold_left)
}

/// Where the words stand in a state, and what is drawn to the right of them.
pub open spec fn laid_out(
    m: Metrics,
    state: OverlayState,
    w: int,
    h: int,
    name_width: int,
    hold_width: int,
    l: Layout,
) -> bool {
    let (cap_left, cap_top, hold_left) = hint_at(m, w, h, name_width, hold_width);
    let listening = state == OverlayState::Listening;
    let live = listening || state == OverlayState::Finalising;
    &&& l.in_range()
    &&& l.hint is Some <==> listening
    &&& l.hint matches Some(hint) ==> {
        &&& hint.keycap.left == cap_left
        &&& hint.keycap.right == w - m.pad
        &&& hint.keycap.top == cap_top
        &&& hint.keycap.bottom == cap_top + m.keycap_height
        &&& hint.name_left == cap_left + m.keycap_pad
        &&& hint.hold_left == hold_left
    }
    &&& l.right_edge == (if listening {
        hold_left - m.hint_to_text
    } else {
        w - m.pad
    })
    &&& l.text_left == (if live {
        m.wave_start() + m.wave_width() + m.wave_to_text
    } else {
        m.wave_start()
    })
    &&& l.text_max == ({
        let room = l.right_edge - l.text_left - (if listening {
            m.caret_space as int
        } else {
            0
        });
        if room > 0 {
            room
        } else {
            0
        }
    })
}

/// Lays out the pill: what stands right of the words is placed first, so that
/// the words know where they have to stop.
pub fn layout(
    m: &Metrics,
    state: OverlayState,
    w: i32,
    h: i32,
    name_width: i32,
    hold_width: i32,
) -> (l: Layout)
    ensures
        laid_out(
            *m,
            state,
            w as int,
            h as int,
            name_width as int,
            hold_width as int,
            l,
        ),
{
    let listening: bool = state == OverlayState::Listening;
    let live: bool = listening || state == OverlayState::Finalising;
    let edge: i64 = w as i64 - m.pad as i64;
    let wave_left: i64 = m.pad as i64 + m.dot_radius as i64 * 2 + m.dot_to_wave as i64;
    let bar_width: i64 = no_less(m.bar_width, 2);
    let bar_gap: i64 = no_less(m.bar_gap, 2);
    let text_left: i64 = if live {
        // All the bars, and a gap between each two.
        wave_left + (bar_width * 11 + bar_gap * 10) + m.wave_to_text as i64
    } else {
        wave_left
    };
    let (hint, right_edge, caret_space): (Option<Hint>, i64, i64) = if listening {
        let cap_left: i64 = edge - (name_width as i64 + m.keycap_pad as i64 * 2);
        let cap_top: i64 = half_of(h as i64) - half_of(m.keycap_height as i64);
        let hold_left: i64 = cap_left - m.hold_to_keycap as i64 - hold_width as i64;
        (
            Some(
                Hint {
                    keycap: Rect {
                        left: cap_left,
                        top: cap_top,
                        right: edge,
                        bottom: cap_top + m.keycap_height as i64,
                    },
                    name_left: cap_left + m.keycap_pad as i64,
                    hold_left,
                },
            ),
            hold_left - m.hint_to_text as i64,
            m.caret_space as i64,
        )
    } else {
        (None, edge, 0)
    };
    let room: i64 = right_edge - text_left - caret_space;
    Layout {
        hint,
        text_left,
        right_edge,
        text_max: if room > 0 {
            room
        } else {
            0
        },
    }
}

/// The caret behind words of a width.
pub open spec fn caret_rect(m: Metrics, l: Layout, h: int, shown_width: int) -> Rect {
    let after = l.text_left + shown_width + m.caret_offset;
    let most = l.right_edge - m.caret_clearance;
    let left = if after < most {
        after
    } else {
        most
    };
    let reach = geometry::half(m.caret_height as int);
    rect(
        left,
        geometry::half(h) - reach,
        left + at_least(m.caret_width, 1),
        geometry::half(h) + reach,
    )
}

/// The caret, right after the words: it is drawn while the key is held, and
/// never runs into what stands right of the words.
pub fn caret(m: &Metrics, l: &Layout, state: OverlayState, h: i32, shown_width: i32) -> (r: Option<
    Rect,
>)
    requires
        l.in_range(),
    ensures
        r is Some <==> state == OverlayState::Listening,
        r matches Some(c) ==> c == caret_rect(*m, *l, h as int, shown_width as int),
{
    if state != OverlayState::Listening {
        return None;
    }
    let after: i64 = l.text_left + shown_width as i64 + m.caret_offset as i64;
    let most: i64 = l.right_edge - m.caret_clearance as i64;
    let left: i64 = if after < most {
        after
    } else {
        most
    };
    let middle: i64 = half_of(h as i64);
    let reach: i64 = half_of(m.caret_height as i64);
    Some(
        Rect {
            left,
            top: middle - reach,
            right: left + no_less(m.caret_width, 1),
            bottom: middle + reach,
        },
    )
}

/// Where the pill goes: bottom centre of the work area, so that it never sits
/// under the taskbar.
pub fn position(
    m: &Metrics,
    work_left: i32,
    work_right: i32,
    work_bottom: i32,
    w: i32,
    h: i32,
) -> (p: (i64, i64))
    ensures
        p.0 == work_left + geometry::half(work_right - work_left - w),
        p.1 == work_bottom - h - m.bottom_margin,
{
    (
        work_left as i64 + half_of(work_right as i64 - work_left as i64 - w as i64),
        work_bottom as i64 - h as i64 - m.bottom_margin as i64,
    )
}

// ---- showing and hiding -----------------------------------------------------------

/// What the window has to do after a change.
#[derive(Clone, Copy, PartialEq, Eq, Debug, Structural)]
pub enum Show {
    /// There is no window, or it is down and stays down.
    Nothing,
    /// Take the window down.
    Hide,
    /// Paint it; it is up.
    Paint,
    /// Paint it, then put it up without giving it the focus.
    PaintAndShow,
}

/// The pill with its window.
pub struct Overlay {
    pub model: OverlayModel,
    /// Whether there is a window to draw in. Without one dictation goes on with
    /// nothing to see.
    pub has_window: bool,
    pub visible: bool,
}

/// What the window has to do, and whether it is up afterwards.
pub open spec fn shown(state: OverlayState, has_window: bool, visible: bool) -> (Show, bool) {
    if !has_window {
        (Show::Nothing, visible)
    } else if state == OverlayState::Hidden {
        if visible {
            (Show::Hide, false)
        } else {
            (Show::Nothing, false)
        }
    } else if visible {
        (Show::Paint, true)
    } else {
        (Show::PaintAndShow, true)
    }
}

impl Overlay {
    /// An overlay that draws nothing, for when there can be no window.
    pub fn disabled(now: u64) -> (o: Overlay)
        ensures
            !o.has_window,
            !o.visible,
            o.model.state == OverlayState::Hidden,
            o.model.text@.len() == 0,
            o.model.hint_key@ == "Ctrl"@,
            o.model.shown_at == now,
    {
        Overlay { model: OverlayModel::new("Ctrl", now), has_window: false, visible: false }
    }

    /// An overlay whose window has been made, and is down.
    pub fn create(hint_key: &str, now: u64) -> (o: Overlay)
        ensures
            o.has_window,
            !o.visible,
            o.model.state == OverlayState::Hidden,
            o.model.text@.len() == 0,
            o.model.hint_key@ == hint_key@,
            o.model.shown_at == now,
    {
        Overlay { model: OverlayModel::new(hint_key, now), has_window: true, visible: false }
    }

    pub fn is_visible(&self) -> (r: bool)
        ensures
            r == self.visible,
    {
        self.visible
    }

    /// Brings the window in step with the model.
    pub fn render(&mut self) -> (s: Show)
        ensures
            (s, final(self).visible) == shown(
                old(self).model.state,
                old(self).has_window,
                old(self).visible,
            ),
            final(self).model == old(self).model,
            final(self).has_window == old(self).has_window,
    {
        if !self.has_window {
            return Show::Nothing;
        }
        if self.model.state == OverlayState::Hidden {
            if self.visible {
                self.visible = false;
                return Show::Hide;
            }
            return Show::Nothing;
        }
        if self.visible {
            Show::Paint
        } else {
            self.visible = true;
            Show::PaintAndShow
        }
    }

    /// Writes another key on the cap. A pill that is up is painted again.
    pub fn remind(&mut self, hint_key: &str) -> (s: Show)
        ensures
            final(self).model.hint_key@ == hint_key@,
            final(self).model == (OverlayModel {
                hint_key: final(self).model.hint_key,
                ..old(self).model
            }),
            final(self).has_window == old(self).has_window,
            (s, final(self).visible) == shown(
                old(self).model.state,
                old(self).has_window,
                old(self).visible,
            ),
    {
        self.model.remind(hint_key);
        self.render()
    }

    /// Records a new state and new words. Says what the window has to do, and
    /// whether the meter starts from silence.
    pub fn set(&mut self, state: OverlayState, text: &str, now: u64) -> (r: (Show, bool))
        ensures
            (r.0, final(self).visible) == shown(state, old(self).has_window, old(self).visible),
            r.1 == (state != old(self).model.state && state == OverlayState::Listening),
            final(self).has_window == old(self).has_window,
            final(self).model.state == state,
            final(self).model.text@ == text@,
            final(self).model.hint_key == old(self).model.hint_key,
            final(self).model.shown_at == (if state != old(self).model.state {
                now
            } else {
                old(self).model.shown_at
            }),
    {
        let clear_meter: bool = self.model.set(state, text, now);
        (self.render(), clear_meter)
    }

    /// One step of the animation. Says what the window has to do, and how long
    /// to wait before the next step: forever once the screen is clear.
    pub fn tick(&mut self, now: u64) -> (r: (Show, Option<u64>))
        ensures
            final(self).has_window == old(self).has_window,
            final(self).model.hint_key == old(self).model.hint_key,
            match overlay_model::tick_of(old(self).model.state, old(self).model.shown_at, now) {
                Tick::Redraw(next) => {
                    &&& final(self).model == old(self).model
                    &&& (r.0, final(self).visible) == shown(
                        old(self).model.state,
                        old(self).has_window,
                        old(self).visible,
                    )
                    &&& r.1 == Some(next)
                },
                Tick::Wait(next) => {
                    &&& *final(self) == *old(self)
                    &&& r == (Show::Nothing, Some(next))
                },
                Tick::Hide => {
                    &&& final(self).model.state == OverlayState::Hidden
                    &&& final(self).model.text@.len() == 0
                    &&& final(self).model.shown_at == now
                    &&& (r.0, final(self).visible) == shown(
                        OverlayState::Hidden,
                        old(self).has_window,
                        old(self).visible,
                    )
                    &&& r.1 is None
                },
                Tick::Idle => {
                    &&& *final(self) == *old(self)
                    &&& r == (Show::Nothing, None::<u64>)
                },
            },
    {
        match self.model.tick(now) {
            Tick::Redraw(next) => (self.render(), Some(next)),
            Tick::Wait(next) => (Show::Nothing, Some(next)),
            Tick::Hide => {
                proof {
                    reveal_strlit("");
                }
                let (s, _) = self.set(OverlayState::Hidden, "", now);
                (s, None)
            },
            Tick::Idle => (Show::Nothing, None),
        }
    }
}

/// A window is up exactly while there is something to show, from the first
/// change on.
pub proof fn law_window_follows_the_state(state: OverlayState, visible: bool)
    ensures
        shown(state, true, visible).1 == (state != OverlayState::Hidden),
        shown(state, false, visible).0 == Show::Nothing,
        shown(state, false, visible).1 == visible,
{
}

} // verus!
