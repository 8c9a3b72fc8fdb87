//! Where everything stands on the screen, pixel by pixel, and what the shell is told.

use vstd::prelude::*;
use crate::geometry;
use crate::overlay_model;
use crate::overlay_model::{OverlayModel, OverlayState};
use crate::paste;
use crate::paste::{AnswerView, AskView, FormatView, PasteView};
use crate::platform::linux;
use crate::platform::windows;
use crate::platform::windows::overlay;
use crate::platform::windows::overlay::{Layout, Metrics};
use crate::platform::windows::paint;
use crate::platform::windows::paint::DrawView;
use crate::chars;
use crate::utf16;

verus! {

// ---- pixels ---------------------------------------------------------------------------

/// The band that fades holds the three colour bytes of every pixel between its columns, in
/// every row, and no other byte; how far into the band a byte stands is its column's matter.
pub proof fn law_band_is_made_of_whole_pixels(
    x: int,
    y: int,
    byte: int,
    w: int,
    h: int,
    from: int,
    to: int,
)
    requires
        0 <= x < w,
        0 <= y,
        0 <= byte < 4,
    ensures
        ({
            let i = 4 * (y * w + x) + byte;
            &&& overlay_model::column(i, w) == x
            &&& overlay_model::banded(i, w, h, from, to) <==> byte < 3 && from <= x < to && y < h
        }),
{
    let p = y * w + x;
    let i = 4 * p + byte;
    assert(p >= 0) by (nonlinear_arith)
        requires
            y >= 0,
            w > 0,
            x >= 0,
            p == y * w + x,
    ;
    assert(i / 4 == p && i % 4 == byte);
    vstd::arithmetic::div_mod::lemma_fundamental_div_mod_converse(p, w, y, x);
}

/// The band lies in the picture, and in what was asked for.
pub proof fn law_band_stays_in_the_picture(x0: i32, x1: i32, w: i32, x: int)
    requires
        0 <= x < w,
    ensures
        overlay_model::band_from(x0) <= x < overlay_model::band_to(x1, w) <==> x0 <= x < x1,
{
}

/// A pixel is cut at a corner where it lies outside the straight part of both edges, and by
/// how far its middle does; all four corners are alike.
pub proof fn law_corners_are_alike(p: int, len: int, r: int)
    requires
        0 <= p < len,
        0 <= r,
        2 * r <= len,
    ensures
        overlay::beyond(p, len, r) == overlay::beyond(len - 1 - p, len, r),
        p < r ==> overlay::beyond(p, len, r) == 2 * (r - p) - 1,
        r <= p < len - r ==> overlay::beyond(p, len, r) == 0,
{
}

/// A pixel that is not in a corner is covered as the pill is; one that is, is covered by
/// how far it lies from the middle of the corner's circle.
pub proof fn law_mask_is_cut_at_the_corners<C: Fn(i32, i32, i32, u8) -> u8>(
    value: u8,
    x: int,
    y: int,
    w: int,
    h: int,
    r: int,
    opacity: u8,
    corner: C,
)
    requires
        0 <= x < w,
        0 <= y < h,
        0 <= r,
        2 * r <= w,
        2 * r <= h,
        overlay::masked(value, x, y, w, h, r, opacity, corner),
    ensures
        r <= x < w - r || r <= y < h - r ==> value == opacity,
        x < r && y < r ==> corner.ensures(
            ((2 * (r - x) - 1) as i32, (2 * (r - y) - 1) as i32, r as i32, opacity),
            value,
        ),
        w - r <= x && h - r <= y ==> corner.ensures(
            ((2 * (x - (w - r)) + 1) as i32, (2 * (y - (h - r)) + 1) as i32, r as i32, opacity),
            value,
        ),
        w - r <= x && y < r ==> corner.ensures(
            ((2 * (x - (w - r)) + 1) as i32, (2 * (r - y) - 1) as i32, r as i32, opacity),
            value,
        ),
        x < r && h - r <= y ==> corner.ensures(
            ((2 * (r - x) - 1) as i32, (2 * (y - (h - r)) + 1) as i32, r as i32, opacity),
            value,
        ),
{
    law_corners_are_alike(x, w, r);
    law_corners_are_alike(y, h, r);
    if x >= w - r {
        law_corners_are_alike(w - 1 - x, w, r);
        assert(2 * (r - (w - 1 - x)) - 1 == 2 * (x - (w - r)) + 1);
    }
    if y >= h - r {
        law_corners_are_alike(h - 1 - y, h, r);
        assert(2 * (r - (h - 1 - y)) - 1 == 2 * (y - (h - r)) + 1);
    }
}

/// The radius is the one that was asked for, as far as the shorter side allows.
pub proof fn law_radius_fits(w: int, h: int, radius: int)
    requires
        0 <= w,
        0 <= h,
    ensures
        ({
            let r = overlay::mask_radius(w, h, radius);
            &&& 0 <= r
            &&& 2 * r <= w
            &&& 2 * r <= h
            &&& r <= radius || r == 0
            &&& 0 <= radius && 2 * radius <= w && 2 * radius <= h ==> r == radius
            &&& 2 * radius > w || 2 * radius > h ==> 2 * r + 1 >= w || 2 * r + 1 >= h
        }),
{
}

/// A mask leaves a pixel that it covers wholly as it is, and clears one that it does not
/// cover at all; in between colours never grow, and the last byte is the mask itself.
pub proof fn law_mask_scales_colours(byte: u8, alpha: u8, channel: int)
    requires
        0 <= channel < 4,
    ensures
        alpha == 0 ==> overlay::premultiplied(byte, alpha, channel) == 0,
        alpha == 255 && channel < 3 ==> overlay::premultiplied(byte, alpha, channel) == byte,
        channel == 3 ==> overlay::premultiplied(byte, alpha, channel) == alpha,
        channel < 3 ==> 255 * overlay::premultiplied(byte, alpha, channel) <= byte * alpha < 255 * (
        overlay::premultiplied(byte, alpha, channel) + 1),
{
    assert(byte * 0 == 0) by (nonlinear_arith);
    let n = byte * alpha;
    assert(255 * (n / 255) <= n < 255 * (n / 255 + 1));
}

/// Half of a length leaves at most one over.
pub proof fn law_halves(v: int)
    ensures
        v >= 0 ==> 2 * geometry::half(v) <= v <= 2 * geometry::half(v) + 1,
        v <= 0 ==> 2 * geometry::half(v) - 1 <= v <= 2 * geometry::half(v),
{
}

// ---- where things stand ---------------------------------------------------------------

/// Measures of a pill of some size: none is negative, and none is larger than a screen.
pub open spec fn sane(m: Metrics) -> bool {
    &&& 0 <= m.pad < 0x1_0000
    &&& 0 <= m.dot_radius < 0x1_0000
    &&& 0 <= m.dot_to_wave < 0x1_0000
    &&& 0 <= m.bar_width < 0x1_0000
    &&& 0 <= m.bar_gap < 0x1_0000
    &&& 0 <= m.wave_to_text < 0x1_0000
}

/// From left to right: the padding, the dot, a space, and eleven bars of the same width with
/// the same gap between each two; all of them stand in the middle of the height.
pub proof fn law_dot_and_bars_stand_side_by_side(m: Metrics, h: int, i: int, height: int)
    requires
        sane(m),
        0 <= h < 0x1_0000,
        0 <= height < 0x1_0000,
        0 <= i < 10,
    ensures
        ({
            let dot = m.dot_rect(h);
            let bar = m.bar_rect(h, i, height);
            let after = m.bar_rect(h, i + 1, height);
            let first = m.bar_rect(h, 0, height);
            let last = m.bar_rect(h, 10, height);
            &&& dot.left == m.pad
            &&& dot.right - dot.left == 2 * m.dot_radius
            &&& dot.bottom - dot.top == 2 * m.dot_radius
            &&& dot.top + m.dot_radius == h / 2
            &&& first.left == dot.right + m.dot_to_wave
            &&& bar.right - bar.left >= 2
            &&& m.bar_width >= 2 ==> bar.right - bar.left == m.bar_width
            &&& after.left - bar.right >= 2
            &&& m.bar_gap >= 2 ==> after.left - bar.right == m.bar_gap
            &&& after.right - after.left == bar.right - bar.left
            &&& bar.bottom - bar.top == height
            &&& bar.top == h / 2 - height / 2
            &&& last.right == m.wave_start() + m.wave_width()
        }),
{
    let pitch = m.bar_pitch();
    assert((i + 1) * pitch == i * pitch + pitch) by (nonlinear_arith);
    assert(0 <= i * pitch <= 10 * 0x2_0000) by (nonlinear_arith)
        requires
            0 <= i < 10,
            0 <= pitch <= 0x2_0000,
    ;
    assert(0 * pitch == 0);
}

/// The words begin behind the waveform while the pill is live, and in its place otherwise;
/// they end before the padding, or before the reminder, which is there while the key is
/// held and only then.
pub proof fn law_words_have_their_place(
    m: Metrics,
    state: OverlayState,
    w: int,
    h: int,
    name_width: int,
    hold_width: int,
    l: Layout,
)
    requires
        overlay::laid_out(m, state, w, h, name_width, hold_width, l),
    ensures
        state == OverlayState::Listening || state == OverlayState::Finalising ==> l.text_left
            == m.wave_start() + m.wave_width() + m.wave_to_text,
        state != OverlayState::Listening && state != OverlayState::Finalising ==> l.text_left
            == m.pad + 2 * m.dot_radius + m.dot_to_wave,
        state != OverlayState::Listening ==> l.hint is None && l.right_edge == w - m.pad,
        state != OverlayState::Listening && l.right_edge >= l.text_left ==> l.text_left + l.text_max
            == w - m.pad,
        l.right_edge <= l.text_left && m.caret_space >= 0 ==> l.text_max == 0,
        state == OverlayState::Listening ==> (l.hint matches Some(hint) && hint.keycap.right == w
            - m.pad && hint.keycap.bottom - hint.keycap.top == m.keycap_height
            && hint.keycap.right - hint.keycap.left == name_width + 2 * m.keycap_pad),
{
}

/// The caret stands behind the words, and never nearer to the right end than its clearance;
/// it is seen, and in the middle of the height.
pub proof fn law_caret_follows_the_words(m: Metrics, l: Layout, h: int, shown_width: int)
    requires
        l.in_range(),
        0 <= h < 0x1_0000,
        0 <= shown_width < 0x1_0000_0000,
    ensures
        ({
            let c = overlay::caret_rect(m, l, h, shown_width);
            &&& c.left <= l.text_left + shown_width + m.caret_offset
            &&& c.left <= l.right_edge - m.caret_clearance
            &&& c.left == l.text_left + shown_width + m.caret_offset || c.left == l.right_edge
                - m.caret_clearance
            &&& c.right - c.left >= 1
            &&& m.caret_width >= 1 ==> c.right - c.left == m.caret_width
            &&& m.caret_height >= 0 ==> c.top == h / 2 - m.caret_height / 2 && c.bottom == h / 2
                + m.caret_height / 2
        }),
{
}

// ---- the picture ----------------------------------------------------------------------

/// The picture starts with the background and the dot, dimmed while the recogniser finishes.
/// There are eleven bars while the pill is live, the reminder where there is one, the words
/// where there are any, the caret while the key is held, and a fade on top where words were
/// dropped: these and nothing else.
pub proof fn law_picture_holds_all_there_is(
    model: OverlayModel,
    m: Metrics,
    h: int,
    heights: Seq<i32>,
    l: Layout,
    shown: Seq<char>,
    clipped: bool,
    width: int,
)
    ensures
        ({
            let p = paint::picture(model, m, h, heights, l, shown, clipped, width);
            let live = model.state == OverlayState::Listening || model.state
                == OverlayState::Finalising;
            let wave = if live {
                11int
            } else {
                0
            };
            let reminder = if l.hint is Some {
                3int
            } else {
                0
            };
            let written = if shown.len() > 0 {
                1int
            } else {
                0
            };
            let caret = if model.state == OverlayState::Listening {
                1int
            } else {
                0
            };
            let fade = if clipped {
                1int
            } else {
                0
            };
            &&& p.len() == 2 + wave + reminder + written + caret + fade
            &&& p[0] == DrawView::Background
            &&& p[1] == (DrawView::Dot {
                at: m.dot_rect(h),
                colour: overlay_model::accent_of(model.state),
                dimmed: model.state == OverlayState::Finalising,
            })
            &&& forall|i: int|
                0 <= i < wave ==> (#[trigger] p[2 + i] matches DrawView::Bar { at, index, rounded }
                    && index == i && at == m.bar_rect(h, i, heights[i] as int) && rounded
                    == m.bar_rounded(heights[i] as int))
            &&& l.hint matches Some(hint) ==> {
                &&& p[2 + wave] == (DrawView::Keycap { at: hint.keycap })
                &&& p[3 + wave] == (DrawView::KeyName {
                    left: hint.name_left as int,
                    right: hint.keycap.right as int,
                })
                &&& p[4 + wave] == (DrawView::Hold {
                    left: hint.hold_left as int,
                    right: hint.keycap.left as int,
                })
            }
            &&& shown.len() > 0 ==> p[2 + wave + reminder] == (DrawView::Words {
                text: shown,
                left: l.text_left as int,
                right: l.right_edge as int,
                colour: overlay_model::text_colour_of(model.state, model.text@),
            })
            &&& model.state == OverlayState::Listening ==> p[2 + wave + reminder + written] == (
            DrawView::Caret { at: overlay::caret_rect(m, l, h, width) })
            &&& clipped ==> p.last() == (DrawView::Fade { from: l.text_left as int })
        }),
{
}

/// A pill is drawn with its words in the room that its layout leaves them: the end of what
/// it has to say, as much as fits there.
pub proof fn law_words_are_drawn_in_their_room<F: Fn(&str) -> i32>(
    model: OverlayModel,
    m: Metrics,
    w: int,
    h: int,
    heights: Seq<i32>,
    name_width: int,
    hold_width: int,
    measure: F,
    out: Seq<DrawView>,
)
    requires
        paint::pictures(model, m, w, h, heights, name_width, hold_width, measure, out),
    ensures
        exists|l: Layout, shown: Seq<char>, clipped: bool, width: i32|
            {
                &&& out == #[trigger] paint::picture(
                    model,
                    m,
                    h,
                    heights,
                    l,
                    shown,
                    clipped,
                    width as int,
                )
                &&& overlay::laid_out(m, model.state, w, h, name_width, hold_width, l)
                &&& exists|room: i32| #[trigger]
                    overlay_model::tail_of(
                        measure,
                        overlay_model::caption(model.state, model.text@),
                        room,
                        shown,
                        clipped,
                    ) && (room == l.text_max || room == i32::MAX && l.text_max > i32::MAX)
            },
{
    let (l, shown, clipped, width) = choose|
        l: Layout,
        shown: Seq<char>,
        clipped: bool,
        width: i32,
    |
        {
            &&& overlay::laid_out(m, model.state, w, h, name_width, hold_width, l)
            &&& overlay_model::tail_of(
                measure,
                overlay_model::caption(model.state, model.text@),
                paint::room_for(l),
                shown,
                clipped,
            )
            &&& paint::measured(measure, shown, width)
            &&& out == #[trigger] paint::picture(
                model,
                m,
                h,
                heights,
                l,
                shown,
                clipped,
                width as int,
            )
        };
    assert(out == paint::picture(model, m, h, heights, l, shown, clipped, width as int));
}

/// A window is put up when there is something to show, painted while it is up, and taken
/// down when there is nothing; without a window nothing is done.
pub proof fn law_window_does_what_is_needed(state: OverlayState, visible: bool)
    ensures
        overlay::shown(state, false, visible) == (overlay::Show::Nothing, visible),
        state == OverlayState::Hidden && visible ==> overlay::shown(state, true, visible) == (
            overlay::Show::Hide,
            false,
        ),
        state == OverlayState::Hidden && !visible ==> overlay::shown(state, true, visible) == (
            overlay::Show::Nothing,
            false,
        ),
        state != OverlayState::Hidden ==> overlay::shown(state, true, visible) == (
            if visible {
                overlay::Show::Paint
            } else {
                overlay::Show::PaintAndShow
            },
            true,
        ),
{
}

// ---- the shell ------------------------------------------------------------------------

/// A click on the icon asks for the menu, with either button or by the keyboard; another
/// message does not, nor does anything else that comes from the icon.
pub proof fn law_clicks_ask_for_the_menu(message: u32, parameter: u32)
    ensures
        windows::tray::asks_for_menu(message, parameter) <==> message == 0x0401 && (parameter
            % 0x1_0000 == 0x0205 || parameter % 0x1_0000 == 0x0202 || parameter % 0x1_0000
            == 0x007B),
{
}

/// What the menu says of a pause and of the login, and what the icon says.
pub proof fn law_menu_says_how_things_are(paused: bool, autostart: bool)
    ensures
        ({
            let lines = windows::tray::menu_lines(paused, autostart);
            &&& lines.len() == 8
            &&& lines[0] == (1usize, if paused {
                "Resume dictation"@
            } else {
                "Pause dictation"@
            })
            &&& lines[2] == (3usize, "Open settings"@)
            &&& lines[3] == (4usize, "Reload dictionary"@)
            &&& lines[4] == (2usize, "Latency report"@)
            &&& lines[5] == (5usize, if autostart {
                "Start at login: on"@
            } else {
                "Start at login: off"@
            })
            &&& lines[7] == (6usize, "Quit Flow"@)
        }),
        windows::tray::tip_text(true) == "Flow: paused"@,
        windows::tray::tip_text(false) == "Flow: hold Right Ctrl to dictate"@,
{
}

/// The command at login is the program's path between quotes.
pub proof fn law_command_at_login_is_quoted(exe: Seq<char>)
    ensures
        windows::autostart::command(exe) == seq!['"'] + exe + seq!['"'],
{
    reveal_strlit("\"");
    assert("\""@ =~= seq!['"']);
}

/// A dictated text is put on the clipboard with the three marks that keep it out of the
/// history, the cloud and the monitors; a text that is put back has none. Either ends in a
/// zero.
pub proof fn law_dictation_is_kept_private(text: Seq<char>)
    ensures
        ({
            let e = paste::entries(text, true);
            &&& e.len() == 4
            &&& e[0].format == FormatView::Text
            &&& e[0].units == utf16::encoded(text).push(0)
            &&& e[1].format == FormatView::Named("CanIncludeInClipboardHistory"@)
            &&& e[2].format == FormatView::Named("CanUploadToCloudClipboard"@)
            &&& e[3].format == FormatView::Named("ExcludeClipboardContentFromMonitorProcessing"@)
            &&& forall|i: int| 1 <= i < 4 ==> (#[trigger] e[i]).units == seq![0u16, 0]
            &&& paste::entries(text, false) == seq![e[0]]
        }),
{
}

/// A paste that went through gives the clipboard back what it held, a hundred and fifty
/// milliseconds after the chord, and empties it where it held nothing.
pub proof fn law_clipboard_is_given_back(
    text: Seq<char>,
    saved: Option<Seq<char>>,
    states: Seq<i16>,
)
    ensures
        ({
            let answers = seq![
                AnswerView::Holds(saved),
                AnswerView::Wrote(None),
                AnswerView::States(states),
                AnswerView::Sent(None),
            ];
            let sent = paste::after(paste::unbegun(text), answers);
            let rested = paste::after(paste::unbegun(text), answers.push(AnswerView::Rested));
            &&& paste::wants(sent) == AskView::Pause(150)
            &&& saved is None ==> paste::wants(rested) == AskView::Empty
            &&& saved matches Some(old_text) ==> (paste::wants(rested) matches AskView::Write {
                text: back,
                entries,
            } && back == old_text && entries.len() == 1 && entries[0].units == utf16::encoded(
                old_text,
            ).push(0))
        }),
{
    let a1 = AnswerView::Holds(saved);
    let a2 = AnswerView::Wrote(None);
    let a3 = AnswerView::States(states);
    let a4 = AnswerView::Sent(None);
    let p0 = paste::unbegun(text);
    let answers = seq![a1, a2, a3, a4];
    assert(answers.push(AnswerView::Rested).drop_last() =~= answers);
    assert(answers.drop_last() =~= seq![a1, a2, a3]);
    assert(seq![a1, a2, a3].drop_last() =~= seq![a1, a2]);
    assert(seq![a1, a2].drop_last() =~= seq![a1]);
    assert(seq![a1].drop_last() =~= Seq::<AnswerView>::empty());
    assert(paste::after(p0, Seq::empty()) == p0);
    assert(paste::after(p0, seq![a1]) == paste::next(p0, a1).0);
    assert(paste::after(p0, seq![a1, a2]) == paste::next(paste::after(p0, seq![a1]), a2).0);
    assert(paste::after(p0, seq![a1, a2, a3]) == paste::next(
        paste::after(p0, seq![a1, a2]),
        a3,
    ).0);
    assert(paste::after(p0, answers) == paste::next(paste::after(p0, seq![a1, a2, a3]), a4).0);
}

/// A chord that could not be sent refuses the paste with its reason, and that is the end.
pub proof fn law_blocked_chord_refuses_the_paste(p: PasteView, e: Seq<char>)
    requires
        paste::wants(p) is Send,
    ensures
        paste::next(p, AnswerView::Sent(Some(e))).1 == Some(Err::<(), Seq<char>>(e)),
        paste::wants(paste::next(p, AnswerView::Sent(Some(e))).0) == AskView::End,
{
}

// ---- which window ---------------------------------------------------------------------

/// Of a path the part behind the last backslash names the program.
pub proof fn law_program_is_the_last_of_its_path(dir: Seq<char>, name: Seq<char>)
    requires
        !name.contains('\\'),
    ensures
        windows::target_app::file_name(dir.push('\\') + name) == name,
        windows::target_app::file_name(name) == name,
    decreases name.len(),
{
    let all = dir.push('\\') + name;
    if name.len() == 0 {
        assert(all =~= dir.push('\\'));
        assert(name =~= Seq::<char>::empty());
    } else {
        let less = name.drop_last();
        assert(name.contains(name.last()));
        if less.contains('\\') {
            let i = less.index_of('\\');
            assert(name[i] == '\\');
            assert(name.contains(name[i]));
        }
        law_program_is_the_last_of_its_path(dir, less);
        assert(all.drop_last() =~= dir.push('\\') + less);
        assert(all.last() == name.last());
        assert(less.push(name.last()) =~= name);
    }
}

/// A window is known by its class, else by the one it first had, in lower case; a reply
/// that names neither says nothing, and so does no reply.
pub proof fn law_window_is_known_by_its_class(fields: Seq<(Seq<char>, Seq<char>)>)
    ensures
        ({
            let reply = Some(seq!['{'] + linux::target_app::written(fields));
            let class = linux::target_app::value_under(fields, "class"@);
            let first = linux::target_app::value_under(fields, "initialClass"@);
            &&& class is Some ==> linux::target_app::focused(reply) == chars::lower(class->0)
            &&& class is None && first is Some ==> linux::target_app::focused(reply)
                == chars::lower(first->0)
            &&& class is None && first is None ==> linux::target_app::focused(reply).len() == 0
        }),
        linux::target_app::focused(None).len() == 0,
{
    linux::target_app::law_value_stands_under_its_key(fields, "class"@);
    linux::target_app::law_value_stands_under_its_key(fields, "initialClass"@);
}

/// White space may stand between a key, its colon and its value.
pub proof fn law_blanks_round_a_colon(
    a: Seq<char>,
    b: Seq<char>,
    value: Seq<char>,
    rest: Seq<char>,
    key: Seq<char>,
)
    requires
        forall|i: int| 0 <= i < a.len() ==> #[trigger] a[i] == ' ' || a[i] == '\n' || a[i] == '\t',
        forall|i: int| 0 <= i < b.len() ==> #[trigger] b[i] == ' ' || b[i] == '\n' || b[i] == '\t',
        forall|i: int| 0 <= i < key.len() ==> #[trigger] key[i] != '"' && key[i] != '\\',
        forall|i: int| 0 <= i < value.len() ==> #[trigger] value[i] != '"' && value[i] != '\\',
    ensures
        linux::target_app::string_field(
            seq!['"'] + (key + (seq!['"'] + (a + (seq![':'] + (b + (seq!['"'] + (value + (seq!['"']
                + rest)))))))),
            key,
        ) == Some(value),
{
    let tail = seq!['"'] + rest;
    let body = value + tail;
    let held = seq!['"'] + body;
    let after = b + held;
    let colon = seq![':'] + after;
    let behind = a + colon;
    let closed = seq!['"'] + behind;
    let named = key + closed;
    let all = seq!['"'] + named;
    assert(all[0] == '"');
    assert(all.skip(1) =~= named);
    lemma_plain_literal(key, behind);
    let n = key.len() as int + 1;
    assert(all.skip(1 + n) =~= behind);
    lemma_blanks(a, colon);
    assert(colon[0] == ':');
    assert(colon.skip(1) =~= after);
    lemma_blanks(b, held);
    assert(held[0] == '"');
    assert(held.skip(1) =~= body);
    lemma_plain_literal(value, rest);
}

proof fn lemma_plain_literal(s: Seq<char>, rest: Seq<char>)
    requires
        forall|i: int| 0 <= i < s.len() ==> #[trigger] s[i] != '"' && s[i] != '\\',
    ensures
        linux::target_app::unescaped(s + (seq!['"'] + rest)) == Some(s),
        linux::target_app::literal_len(s + (seq!['"'] + rest)) == Some(s.len() as int + 1),
    decreases s.len(),
{
    let all = s + (seq!['"'] + rest);
    if s.len() == 0 {
        assert(all[0] == '"');
        assert(s =~= Seq::<char>::empty());
    } else {
        let less = s.drop_first();
        assert forall|i: int| 0 <= i < less.len() implies #[trigger] less[i] != '"' && less[i]
            != '\\' by {
            assert(less[i] == s[i + 1]);
        }
        lemma_plain_literal(less, rest);
        assert(all[0] == s[0]);
        assert(all.skip(1) =~= less + (seq!['"'] + rest));
        assert(seq![s[0]] + less =~= s);
    }
}

proof fn lemma_blanks(a: Seq<char>, rest: Seq<char>)
    requires
        forall|i: int| 0 <= i < a.len() ==> #[trigger] a[i] == ' ' || a[i] == '\n' || a[i] == '\t',
        rest.len() > 0,
        rest[0] == ':' || rest[0] == '"',
    ensures
        linux::target_app::behind_space(a + rest) == rest,
    decreases a.len(),
{
    let all = a + rest;
    if a.len() == 0 {
        assert(all =~= rest);
    } else {
        let less = a.drop_first();
        assert forall|i: int| 0 <= i < less.len() implies #[trigger] less[i] == ' ' || less[i]
            == '\n' || less[i] == '\t' by {
            assert(less[i] == a[i + 1]);
        }
        lemma_blanks(less, rest);
        assert(all[0] == a[0]);
        assert(all.drop_first() =~= less + rest);
    }
}

} // verus!
