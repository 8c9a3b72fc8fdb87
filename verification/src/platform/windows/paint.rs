//! What the pill is drawn of: everything in it, from the back to the front.

use vstd::prelude::*;
use crate::overlay_model;
use crate::overlay_model::{tail_that_fits, OverlayModel, OverlayState, BARS};
use crate::platform::windows::overlay;
use crate::platform::windows::overlay::{caret, layout, Hint, Layout, Metrics, Rect};

verus! {

/// One thing that is drawn.
pub enum Draw {
    /// The background, over all of the pill.
    Background,
    /// The recording dot. It is dimmed while the recogniser finishes.
    Dot { at: Rect, colour: [u8; 3], dimmed: bool },
    /// A bar of the waveform. How bright it is depends on how tall it stands.
    Bar { at: Rect, index: usize, rounded: bool },
    /// The cap of the key that is held.
    Keycap { at: Rect },
    /// The name of the key, in the cap.
    KeyName { left: i64, right: i64 },
    /// The word before the cap.
    Hold { left: i64, right: i64 },
    /// The words.
    Words { text: String, left: i64, right: i64, colour: [u8; 3] },
    /// The caret behind the words.
    Caret { at: Rect },
    /// The left end of the words fades into the background from here on, instead of
    /// being chopped off.
    Fade { from: i64 },
}

/// A drawn thing, as it is seen.
pub enum DrawView {
    Background,
    Dot { at: Rect, colour: Seq<u8>, dimmed: bool },
    Bar { at: Rect, index: int, rounded: bool },
    Keycap { at: Rect },
    KeyName { left: int, right: int },
    Hold { left: int, right: int },
    Words { text: Seq<char>, left: int, right: int, colour: Seq<u8> },
    Caret { at: Rect },
    Fade { from: int },
}

impl View for Draw {
    type V = DrawView;

    open spec fn view(&self) -> DrawView {
        match *self {
            Draw::Background => DrawView::Background,
            Draw::Dot { at, colour, dimmed } => DrawView::Dot { at, colour: colour@, dimmed },
            Draw::Bar { at, index, rounded } => DrawView::Bar { at, index: index as int, rounded },
            Draw::Keycap { at } => DrawView::Keycap { at },
            Draw::KeyName { left, right } => DrawView::KeyName {
                left: left as int,
                right: right as int,
            },
            Draw::Hold { left, right } => DrawView::Hold {
                left: left as int,
                right: right as int,
            },
            Draw::Words { text, left, right, colour } => DrawView::Words {
                text: text@,
                left: left as int,
                right: right as int,
                colour: colour@,
            },
            Draw::Caret { at } => DrawView::Caret { at },
            Draw::Fade { from } => DrawView::Fade { from: from as int },
        }
    }
}

/// Drawn things, as they are seen.
pub open spec fn draw_views(d: Seq<Draw>) -> Seq<DrawView> {
    d.map_values(|x: Draw| x@)
}

/// The waveform, bar by bar. It is drawn while the pill is live.
pub open spec fn bars(
    state: OverlayState,
    m: Metrics,
    h: int,
    heights: Seq<i32>,
) -> Seq<DrawView> {
    if state == OverlayState::Listening || state == OverlayState::Finalising {
        Seq::new(
            BARS as nat,
            |i: int| DrawView::Bar {
                at: m.bar_rect(h, i, heights[i] as int),
                index: i,
                rounded: m.bar_rounded(heights[i] as int),
            },
        )
    } else {
        seq![]
    }
}

/// The reminder of the key.
pub open spec fn reminder(hint: Option<Hint>) -> Seq<DrawView> {
    match hint {
        Some(at) => seq![
            DrawView::Keycap { at: at.keycap },
            DrawView::KeyName { left: at.name_left as int, right: at.keycap.right as int },
            DrawView::Hold { left: at.hold_left as int, right: at.keycap.left as int },
        ],
        None => seq![],
    }
}

/// The words, where there are any.
pub open spec fn words_drawn(l: Layout, shown: Seq<char>, colour: Seq<u8>) -> Seq<DrawView> {
    if shown.len() > 0 {
        seq![
            DrawView::Words {
                text: shown,
                left: l.text_left as int,
                right: l.right_edge as int,
                colour,
            },
        ]
    } else {
        seq![]
    }
}

/// The caret, while the key is held.
pub open spec fn caret_drawn(
    state: OverlayState,
    m: Metrics,
    l: Layout,
    h: int,
    width: int,
) -> Seq<DrawView> {
    if state == OverlayState::Listening {
        seq![DrawView::Caret { at: overlay::caret_rect(m, l, h, width) }]
    } else {
        seq![]
    }
}

/// The fade, where words were dropped.
pub open spec fn faded(l: Layout, clipped: bool) -> Seq<DrawView> {
    if clipped {
        seq![DrawView::Fade { from: l.text_left as int }]
    } else {
        seq![]
    }
}

/// The most that words may be wide, as a width in pixels.
pub open spec fn room_for(l: Layout) -> i32 {
    if l.text_max > i32::MAX {
        i32::MAX
    } else {
        l.text_max as i32
    }
}

/// The measure finds a text so wide.
pub open spec fn measured<F: Fn(&str) -> i32>(measure: F, text: Seq<char>, width: i32) -> bool {
    exists|t: &str| t@ == text && #[trigger] measure.ensures((t,), width)
}

/// The picture of a pill that is laid out, with so much of its words shown.
pub open spec fn picture(
    model: OverlayModel,
    m: Metrics,
    h: int,
    heights: Seq<i32>,
    l: Layout,
    shown: Seq<char>,
    clipped: bool,
    width: int,
) -> Seq<DrawView> {
    seq![
        DrawView::Background,
        DrawView::Dot {
            at: m.dot_rect(h),
            colour: overlay_model::accent_of(model.state),
            dimmed: model.state == OverlayState::Finalising,
        },
    ] + bars(model.state, m, h, heights) + reminder(l.hint) + words_drawn(
        l,
        shown,
        overlay_model::text_colour_of(model.state, model.text@),
    ) + caret_drawn(model.state, m, l, h, width) + faded(l, clipped)
}

/// A list of drawn things is the picture of a pill, under what the measure finds.
pub open spec fn pictures<F: Fn(&str) -> i32>(
    model: OverlayModel,
    m: Metrics,
    w: int,
    h: int,
    heights: Seq<i32>,
    name_width: int,
    hold_width: int,
    measure: F,
    out: Seq<DrawView>,
) -> bool {
    exists|l: Layout, shown: Seq<char>, clipped: bool, width: i32|
        {
            &&& overlay::laid_out(m, model.state, w, h, name_width, hold_width, l)
            &&& overlay_model::tail_of(
                measure,
                overlay_model::caption(model.state, model.text@),
                room_for(l),
                shown,
                clipped,
            )
            &&& measured(measure, shown, width)
            &&& out == #[trigger] picture(
                model,
                m,
                h,
                heights,
                l,
                shown,
                clipped,
                width as int,
            )
        }
}

fn draw(out: &mut Vec<Draw>, d: Draw)
    ensures
        draw_views(final(out)@) == draw_views(old(out)@).push(d@),
{
    out.push(d);
    assert(draw_views(out@) =~= draw_views(old(out)@).push(d@));
}

fn draw_bars(out: &mut Vec<Draw>, m: &Metrics, state: OverlayState, h: i32, heights: &[i32; 11])
    ensures
        draw_views(final(out)@) == draw_views(old(out)@) + bars(state, *m, h as int, heights@),
{
    let ghost before = draw_views(out@);
    let ghost all = bars(state, *m, h as int, heights@);
    assert(before + all.take(0) =~= before);
    if state != OverlayState::Listening && state != OverlayState::Finalising {
        assert(before + all =~= before);
        return;
    }
    let mut i: usize = 0;
    while i < BARS
        invariant
            i <= BARS,
            state == OverlayState::Listening || state == OverlayState::Finalising,
            all == bars(state, *m, h as int, heights@),
            draw_views(out@) == before + all.take(i as int),
        decreases BARS - i,
    {
        let (at, rounded) = m.bar(h, i, heights[i]);
        draw(out, Draw::Bar { at, index: i, rounded });
        assert(all.take(i + 1) =~= all.take(i as int).push(all[i as int]));
        assert(draw_views(out@) =~= before + all.take(i + 1));
        i += 1;
    }
    assert(all.take(i as int) =~= all);
}

fn draw_reminder(out: &mut Vec<Draw>, hint: &Option<Hint>)
    ensures
        draw_views(final(out)@) == draw_views(old(out)@) + reminder(*hint),
{
    let ghost before = draw_views(out@);
    match hint {
        Some(at) => {
            draw(out, Draw::Keycap { at: at.keycap });
            draw(out, Draw::KeyName { left: at.name_left, right: at.keycap.right });
            draw(out, Draw::Hold { left: at.hold_left, right: at.keycap.left });
        },
        None => {},
    }
    assert(draw_views(out@) =~= before + reminder(*hint));
}

/// Everything that is drawn of the pill, from the back to the front. `heights` are
/// how tall the bars stand, `name_width` and `hold_width` how wide the reminder of the
/// key is in its font; `measure` gives the width of a text in the font of the words.
pub fn paint<F: Fn(&str) -> i32 + Copy>(
    model: &OverlayModel,
    m: &Metrics,
    w: i32,
    h: i32,
    heights: &[i32; 11],
    name_width: i32,
    hold_width: i32,
    measure: F,
) -> (out: Vec<Draw>)
    requires
        forall|t: &str| #[trigger] measure.requires((t,)),
    ensures
        pictures(
            *model,
            *m,
            w as int,
            h as int,
            heights@,
            name_width as int,
            hold_width as int,
            measure,
            draw_views(out@),
        ),
{
    let state: OverlayState = model.state;
    let l: Layout = layout(m, state, w, h, name_width, hold_width);
    let room: i32 = if l.text_max > i32::MAX as i64 {
        i32::MAX
    } else {
        l.text_max as i32
    };
    let body: String = model.body();
    let (shown, clipped) = tail_that_fits(body.as_str(), room, measure);
    let width: i32 = measure(shown.as_str());
    let ghost words = shown@;
    assert(measured(measure, words, width));

    let mut out: Vec<Draw> = Vec::new();
    assert(draw_views(out@) =~= seq![]);
    draw(&mut out, Draw::Background);
    draw(
        &mut out,
        Draw::Dot {
            at: m.dot(h),
            colour: model.accent(),
            dimmed: state == OverlayState::Finalising,
        },
    );
    draw_bars(&mut out, m, state, h, heights);
    draw_reminder(&mut out, &l.hint);
    let ghost before = draw_views(out@);
    if !shown.as_str().is_empty() {
        draw(
            &mut out,
            Draw::Words {
                text: shown,
                left: l.text_left,
                right: l.right_edge,
                colour: model.text_colour(),
            },
        );
    }
    let ghost colour = overlay_model::text_colour_of(model.state, model.text@);
    assert(draw_views(out@) =~= before + words_drawn(l, words, colour));
    let ghost before = draw_views(out@);
    match caret(m, &l, state, h, width) {
        Some(at) => draw(&mut out, Draw::Caret { at }),
        None => {},
    }
    assert(draw_views(out@) =~= before + caret_drawn(state, *m, l, h as int, width as int));
    let ghost before = draw_views(out@);
    if clipped {
        draw(&mut out, Draw::Fade { from: l.text_left });
    }
    assert(draw_views(out@) =~= before + faded(l, clipped));
    assert(draw_views(out@) =~= picture(
        *model,
        *m,
        h as int,
        heights@,
        l,
        words,
        clipped,
        width as int,
    ));
    out
}

/// While the key is held, the words, the caret behind them and the reminder of the key
/// stand side by side: words as wide as they may be leave room for the caret, and end
/// before the reminder begins.
pub proof fn law_words_stop_before_the_reminder(
    m: Metrics,
    w: int,
    h: int,
    name_width: int,
    hold_width: int,
    l: Layout,
    width: int,
)
    requires
        overlay::laid_out(m, OverlayState::Listening, w, h, name_width, hold_width, l),
        0 < width <= l.text_max,
    ensures
        l.hint matches Some(hint) && l.text_left + width + m.caret_space <= l.right_edge
            && l.right_edge + m.hint_to_text == hint.hold_left && hint.hold_left + hold_width
            + m.hold_to_keycap == hint.keycap.left && hint.name_left + name_width + m.keycap_pad
            == hint.keycap.right,
{
}

} // verus!
