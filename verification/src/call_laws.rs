//! What the operations on text, settings and figures give back when they are called.

use vstd::prelude::*;
use crate::asr;
use crate::asr::Line;
use crate::audio_sink::AudioSink;
use crate::bench;
use crate::chars;
use crate::dictionary;
use crate::dictionary::Dictionary;
use crate::dictionary_text;
use crate::dictionary_text_laws;
use crate::format::Formatter;
use crate::number;
use crate::phrase_laws;
use crate::phrases;
use crate::platform::linux;
use crate::sentence_laws;
use crate::settings::{Found, Settings};
use crate::settings;
use crate::settings_ui;
use crate::settings_ui::Form;
use crate::speech_laws;
use crate::stats;
use crate::stats::Samples;
use crate::target_app;
use crate::trace::Utterance;
use crate::utf16;
use crate::wer;
use crate::words;
use crate::words_laws;

verus! {

// ---- transcripts ----------------------------------------------------------------------

/// Joined lines hold every word of every line, one line after the other, however many lines
/// there are.
pub proof fn law_joined_lines_hold_every_word(lines: &[Line], out: String)
    requires
        call_ensures(asr::join, (lines,), out),
    ensures
        words::words(out@) == speech_laws::heard(lines@),
{
    speech_laws::lemma_heard(lines@);
}

/// One line more puts its text behind the others, after one space and without the white
/// space round it; a line of white space adds nothing.
pub proof fn law_one_line_more_is_put_behind(
    lines: &[Line],
    more: &[Line],
    line: Line,
    out: String,
    longer: String,
)
    requires
        more@ == lines@.push(line),
        call_ensures(asr::join, (lines,), out),
        call_ensures(asr::join, (more,), longer),
    ensures
        longer@ == if words::trim(line.text@).len() == 0 {
            out@
        } else if out@.len() == 0 {
            words::trim(line.text@)
        } else {
            out@.push(' ') + words::trim(line.text@)
        },
{
    asr::law_one_more_line(asr::line_texts(lines@), line.text@);
    assert(asr::line_texts(more@) =~= asr::line_texts(lines@).push(line.text@));
}

// ---- sentences ------------------------------------------------------------------------

/// Capitals are set at the first letter of each sentence and nowhere else: a letter with a
/// letter before it, and no `. ! ?` or line break between the two, stays as it is.
pub proof fn law_capitals_are_set_at_sentences(text: &str, out: String)
    requires
        call_ensures(crate::format::capitalise, (text,), out),
    ensures
        out@ == words_laws::chained(
            Seq::new(
                text@.len(),
                |i: int|
                    if sentence_laws::opens(text@, i) {
                        chars::upper(text@[i])
                    } else {
                        seq![text@[i]]
                    },
            ),
        ),
{
    sentence_laws::law_capitals_of_plain_text(text@);
}

/// One character more, and what it does to the gaps.
pub proof fn law_gaps_are_fixed_as_text_grows(
    text: &str,
    more: &str,
    c: char,
    out: String,
    longer: String,
)
    requires
        more@ == text@.push(c),
        call_ensures(crate::format::fix_spacing, (text,), out),
        call_ensures(crate::format::fix_spacing, (more,), longer),
    ensures
        ({
            let said = text@.len() > 0 && (text@.last() == ' ' || text@.last() == '\t');
            let p = out@.last();
            if c == ' ' || c == '\t' {
                longer@ == out@
            } else if out@.len() == 0 {
                longer@ == seq![c]
            } else if p != '\n' && c != '.' && c != ',' && c != '!' && c != '?' && c != ';' && c
                != ':' && c != ')' && c != '\n' && (said || ((p == '.' || p == ',' || p == '!' || p
                == '?' || p == ';' || p == ':') && chars::alphanumeric(c))) {
                longer@ == out@.push(' ').push(c)
            } else {
                longer@ == out@.push(c)
            }
        }),
{
    sentence_laws::law_gaps_of_plain_text(text@, c);
}

/// A formatter makes nothing of silence; with the trailing space its text ends in a space or
/// a line break; without a dictionary, spoken punctuation and capitals a text changes only in
/// its blanks.
pub proof fn law_formatter_makes_text(f: &Formatter, raw: &str, out: String)
    requires
        call_ensures(Formatter::format, (f, raw), out),
    ensures
        words::trim(raw@).len() == 0 ==> out@.len() == 0,
        words::trim(raw@).len() > 0 && f.trailing_space ==> out@.len() > 0 && (out@.last() == ' '
            || out@.last() == '\n'),
        f.replacements().len() == 0 && !f.capitalise_sentences && !f.spoken_punctuation
            && !f.trailing_space ==> out@.filter(|c: char| c != ' ' && c != '\t') == words::trim(
            raw@,
        ).filter(|c: char| c != ' ' && c != '\t'),
        out@ == crate::format::formatted(
            raw@,
            f.replacements(),
            f.capitalise_sentences,
            f.spoken_punctuation,
            f.trailing_space,
        ),
{
    sentence_laws::law_plain_text_keeps_its_characters(raw@);
    assert(f.replacements().len() == 0 ==> f.replacements() =~= Seq::empty());
}

// ---- phrases --------------------------------------------------------------------------

/// Where the words of a phrase are said, in any case and with any punctuation round them,
/// what it stands for is put in their place; the rest is dealt with as it would be alone.
pub proof fn law_phrases_are_applied(
    ps: &Vec<(String, String)>,
    text: &str,
    tail: &str,
    k: int,
    before: Seq<Seq<char>>,
    ws: Seq<Seq<char>>,
    after: Seq<Seq<char>>,
    gaps: Seq<char>,
    out: String,
    rest: String,
)
    requires
        phrase_laws::well_uttered(before, ws, after, gaps, tail@),
        ws.len() > 0,
        0 <= k < ps@.len(),
        words::words(ps@[k].0@) == ws.map_values(|w: Seq<char>| chars::lower(w)),
        forall|j: int| 0 <= j < k ==> phrase_laws::parts_from((#[trigger] ps@[j]).0@, ws),
        text@ == phrase_laws::uttered(before, ws, after, gaps) + tail@,
        call_ensures(phrases::apply_phrases, (text, ps), out),
        call_ensures(phrases::apply_phrases, (tail, ps), rest),
    ensures
        out@ == ps@[k].1@ + (if gaps.len() == ws.len() && !(ps@[k].1@.len() > 0 && ps@[k].1@.last()
            == '\n') {
            seq![gaps.last()]
        } else {
            seq![]
        }) + rest@,
{
    let entries = dictionary::pairs(ps@);
    assert(entries[k] == (ps@[k].0@, ps@[k].1@));
    assert forall|j: int| 0 <= j < k implies phrase_laws::parts_from(
        (#[trigger] entries[j]).0,
        ws,
    ) by {
        assert(entries[j].0 == ps@[j].0@);
    }
    phrase_laws::law_phrase_is_replaced(entries, k, before, ws, after, gaps, tail@);
}

// ---- prompts --------------------------------------------------------------------------

/// Lines become one: a break with text on both sides is replaced, unless a space stands
/// before it, and one at an end is dropped. No break is left but those of the replacement.
pub proof fn law_lines_are_put_on_one(
    a: Seq<char>,
    breaks: Seq<char>,
    b: Seq<char>,
    text: &str,
    replacement: &str,
    out: String,
)
    requires
        target_app::on_one_line(a),
        target_app::on_one_line(b),
        target_app::only_breaks(breaks),
        text@ == a + breaks + b,
        call_ensures(target_app::strip_newlines, (text, replacement), out),
    ensures
        a.len() > 0 && a.last() != ' ' && breaks.len() > 0 && b.len() > 0 ==> out@ == a
            + replacement@ + b,
        a.len() > 0 && a.last() == ' ' && b.len() > 0 ==> out@ == a + b,
        a.len() == 0 ==> out@ == b,
        b.len() == 0 ==> out@ == a,
{
    target_app::law_two_lines_become_one(a, breaks, b, replacement@);
    if a.len() == 0 {
        assert(text@ =~= breaks + b);
    }
    if b.len() == 0 {
        assert(text@ =~= a + breaks);
    }
}

/// The same of a text that goes on with more lines: what stands before a break and what
/// stands behind it are dealt with each on its own.
pub proof fn law_breaks_are_replaced_one_by_one(
    a: &str,
    breaks: Seq<char>,
    b: &str,
    text: &str,
    replacement: &str,
    out_a: String,
    out_b: String,
    out: String,
)
    requires
        a@.len() > 0,
        a@.last() != '\n' && a@.last() != '\r',
        breaks.len() > 0,
        target_app::only_breaks(breaks),
        b@.len() > 0,
        b@[0] != '\n' && b@[0] != '\r',
        text@ == a@ + breaks + b@,
        call_ensures(target_app::strip_newlines, (a, replacement), out_a),
        call_ensures(target_app::strip_newlines, (b, replacement), out_b),
        call_ensures(target_app::strip_newlines, (text, replacement), out),
    ensures
        out@ == out_a@ + (if a@.last() == ' ' {
            seq![]
        } else {
            replacement@
        }) + out_b@,
{
    target_app::law_breaks_become_the_replacement(a@, breaks, b@, replacement@);
}

// ---- the settings window --------------------------------------------------------------

/// What is saved is what the window shows: every tick, the dictionary, and the strength of
/// the bias; what the window does not show stays as it was.
pub proof fn law_window_is_saved_as_it_stands(
    s: Settings,
    form: &Form,
    r: (Settings, Option<String>),
)
    requires
        call_ensures(settings_ui::collect, (s, form), r),
    ensures
        r.0.formatting.capitalise_sentences == form.capitals,
        r.0.formatting.spoken_punctuation == form.punctuation,
        r.0.formatting.trailing_space == form.trailing,
        r.0.model.single_thread == form.single_thread,
        form.boost matches Some(b) ==> r.0.model.keyterm_boost@ == b@,
        form.boost is None ==> r.0.model.keyterm_boost@ == s.model.keyterm_boost@,
        r.0.model.dir@ == s.model.dir@,
        r.0.model.force_partials == s.model.force_partials,
        r.0@.dictionary == dictionary_text::entries_of(words::lines(form.dictionary@)),
        form.hotkey is None ==> r.0.hotkey.key@ == s.hotkey.key@,
        form.profile is None ==> r.0.model.profile@ == s.model.profile@,
        form.insert is None ==> r.0.insertion.mode@ == s.insertion.mode@,
        form.terminal is None ==> r.0.insertion.terminal_mode@ == s.insertion.terminal_mode@,
        form.insert matches Some(i) ==> i < 2 ==> r.0.insertion.mode@ == seq![
            "paste"@,
            "type"@,
        ][i as int],
        form.terminal matches Some(i) ==> i < 2 ==> r.0.insertion.terminal_mode@ == seq![
            "paste"@,
            "type"@,
        ][i as int],
        form.profile matches Some(i) ==> i < 2 ==> r.0.model.profile@ == seq![
            "balanced"@,
            "fast"@,
        ][i as int],
{
    crate::settings_ui_laws::law_saved_is_what_is_shown(s@, form@);
    crate::settings_ui_laws::law_choices_are_saved_by_name(s@, form@);
    assert(r.0@.insertion == settings_ui::collected(s@, form@).insertion);
    assert(r.0@.model == settings_ui::collected(s@, form@).model);
}

/// The window shows what the settings hold.
pub proof fn law_window_shows_the_settings(s: &Settings, form: Form)
    requires
        call_ensures(settings_ui::show, (s,), form),
    ensures
        form.capitals == s.formatting.capitalise_sentences,
        form.punctuation == s.formatting.spoken_punctuation,
        form.trailing == s.formatting.trailing_space,
        form.single_thread == s.model.single_thread,
        form.cadence@ == number::decimal(s.model.partial_cadence_ms as nat),
        form.tail@ == number::decimal(s.model.release_tail_ms as nat),
        form.dictionary@ == dictionary_text::shown(s@.dictionary),
{
    assert(form@ == settings_ui::form_of(s@));
}

/// A file that was read is followed, and any other leaves the settings that hold before any
/// are made.
pub proof fn law_read_settings_are_followed(
    path: &str,
    found: Found,
    r: (Settings, Option<String>),
)
    requires
        call_ensures(Settings::load, (path, found), r),
    ensures
        found matches Found::Read(s) ==> r.0 == s && r.1 is None,
        !(found is Read) ==> r.0.hotkey.key@ == "rightctrl"@,
        !(found is Read) ==> r.0@ == settings::default_settings(),
        found is Unreadable || found is Invalid ==> r.1 is Some,
{
}

// ---- dictionaries ---------------------------------------------------------------------

/// What is put in is found, and nothing else is changed by it.
pub proof fn law_what_is_put_in_is_found(
    d: &mut Dictionary,
    key: String,
    value: String,
    other: &str,
    asked: &str,
    before: Option<&String>,
    same: Option<&String>,
    found: Option<&String>,
)
    requires
        dictionary::distinct(old(d)@),
        asked@ == key@,
        other@ != key@,
        call_ensures(Dictionary::get, (&*old(d), other), before),
        call_ensures(Dictionary::insert, (d, key, value), ()),
        call_ensures(Dictionary::get, (&*final(d), asked), found),
        call_ensures(Dictionary::get, (&*final(d), other), same),
    ensures
        found matches Some(v) && v@ == value@,
        same is Some <==> before is Some,
        same matches Some(v) ==> (before matches Some(w) && v@ == w@),
{
    dictionary::law_put_lookup(old(d)@, key@, value@, key@);
    dictionary::law_put_lookup(old(d)@, key@, value@, other@);
}

/// A dictionary that is shown as text and read again holds the same entries.
pub proof fn law_shown_dictionary_reads_back(
    d: &Dictionary,
    shown: String,
    text: &str,
    back: Dictionary,
    key: Seq<char>,
)
    requires
        dictionary::distinct(d@),
        dictionary_text_laws::all_typeable(d@),
        call_ensures(dictionary_text::dictionary_to_text, (d,), shown),
        text@ == shown@,
        call_ensures(dictionary_text::text_to_dictionary, (text,), back),
    ensures
        dictionary::lookup(back@, key) == dictionary::lookup(d@, key),
        back@.to_multiset() == d@.to_multiset(),
{
    dictionary_text_laws::law_dictionary_round_trips(d@, key);
    dictionary_text_laws::law_shown_in_order(d@);
}

// ---- words and figures ----------------------------------------------------------------

/// The errors of a transcript add up to its distance, and there is none exactly where the
/// words are the same.
pub proof fn law_errors_add_up(r: &[String], h: &[String], out: (usize, usize, usize, usize))
    requires
        call_ensures(wer::edit_distance, (r, h), out),
    ensures
        out.0 == out.1 + out.2 + out.3,
        out.0 == 0 <==> chars::texts(r@) == chars::texts(h@),
        r@.len() - h@.len() <= out.0,
        h@.len() - r@.len() <= out.0,
        out.2 - out.3 == r@.len() - h@.len(),
{
    let a = chars::texts(r@);
    let b = chars::texts(h@);
    wer::law_breakdown_adds_up(a, b, a.len(), b.len());
    wer::law_zero_means_identical(a, b);
    wer::law_distance_range(a, b);
    lemma_deletions_against_insertions(a, b, a.len(), b.len());
}

proof fn lemma_deletions_against_insertions(
    r: Seq<Seq<char>>,
    h: Seq<Seq<char>>,
    i: nat,
    j: nat,
)
    ensures
        wer::breakdown(r, h, i, j).1 - wer::breakdown(r, h, i, j).2 == i - j,
    decreases i + j,
{
    if i > 0 && j > 0 {
        lemma_deletions_against_insertions(r, h, (i - 1) as nat, (j - 1) as nat);
        lemma_deletions_against_insertions(r, h, (i - 1) as nat, j);
        lemma_deletions_against_insertions(r, h, i, (j - 1) as nat);
    } else if i > 0 {
        lemma_deletions_against_insertions(r, h, (i - 1) as nat, j);
    } else if j > 0 {
        lemma_deletions_against_insertions(r, h, i, (j - 1) as nat);
    }
}

/// What is waited for is made of its two parts.
pub proof fn law_spans_add_up(u: &Utterance, perceived: i128, finalisation: i128, insertion: i128)
    requires
        call_ensures(Utterance::user_perceived, (u,), perceived),
        call_ensures(Utterance::finalisation, (u,), finalisation),
        call_ensures(Utterance::insertion, (u,), insertion),
    ensures
        perceived == finalisation + insertion,
        finalisation == u.t9_final_ready - u.t7_hotkey_up,
        insertion == u.t12_inserted - u.t9_final_ready,
{
}

/// Every span is counted from when the key went down or came up.
pub proof fn law_spans_are_counted_from_the_key(
    u: &Utterance,
    activation: i128,
    arm: i128,
    partial: Option<i128>,
)
    requires
        call_ensures(Utterance::activation, (u,), activation),
        call_ensures(Utterance::arm, (u,), arm),
        call_ensures(Utterance::first_partial, (u,), partial),
    ensures
        u.t0_hotkey_down + activation == u.t1_first_packet,
        u.t0_hotkey_down + arm == u.t0b_armed,
        partial is None <==> u.t6_first_partial == 0,
        partial matches Some(d) ==> u.t0_hotkey_down + d == u.t6_first_partial,
{
}

/// A percentile is one of the samples; the highest is the greatest of them; and there is one
/// exactly where there are samples.
pub proof fn law_percentile_is_a_sample(
    s: &Samples,
    percent: u64,
    r: Option<i128>,
    most: Option<i128>,
)
    requires
        percent <= 100,
        call_ensures(Samples::p, (s, percent), r),
        call_ensures(Samples::max, (s,), most),
    ensures
        r is Some <==> s.values@.len() > 0,
        r matches Some(v) ==> s.values@.contains(v) && (most matches Some(m) && v <= m),
{
    broadcast use vstd::seq_lib::group_to_multiset_ensures;

    if s.values@.len() > 0 {
        let n = s.values@.len();
        stats::law_ascending(s.values@);
        stats::law_percentiles_rise(s.values@, percent as nat, 100);
        let sorted = stats::ascending(s.values@);
        let k = stats::rank(n, percent as nat) - 1;
        assert(0 <= k < n);
        assert(sorted.contains(sorted[k]));
        assert(sorted.to_multiset().count(sorted[k]) > 0);
        assert(s.values@.contains(sorted[k]));
    }
}

/// What is captured comes out in the order in which it went in, once and all of it.
pub proof fn law_captured_samples_come_out_in_order<S: Copy>(
    a: &mut AudioSink<S>,
    b: &mut AudioSink<S>,
    c: &mut AudioSink<S>,
    first: &[S],
    second: &[S],
    spare: &mut Vec<S>,
    any: bool,
)
    requires
        old(a)@.len() == 0,
        call_ensures(AudioSink::<S>::push, (a, first), ()),
        *old(b) == *final(a),
        call_ensures(AudioSink::<S>::push, (b, second), ()),
        *old(c) == *final(b),
        call_ensures(AudioSink::<S>::drain, (c, spare), any),
    ensures
        final(spare)@ == first@ + second@,
        final(c)@.len() == 0,
        any <==> first@.len() + second@.len() > 0,
{
    assert(old(a)@ + first@ =~= first@);
}

/// A chunk holds the samples of its time, to less than one.
pub proof fn law_chunks_hold_their_time(chunk_ms: u64, n: u64)
    requires
        call_ensures(bench::chunk_len, (chunk_ms,), n),
    ensures
        1000 * n <= 16_000 * chunk_ms < 1000 * (n + 1),
{
}

/// Text that goes to units and comes back is the same text.
pub proof fn law_text_survives_its_units(s: &str, units: Vec<u16>, again: &[u16], back: String)
    requires
        call_ensures(utf16::encode, (s,), units),
        again@ == units@,
        call_ensures(utf16::decode, (again,), back),
    ensures
        back@ == s@,
{
    utf16::law_round_trip(s@);
}

/// The value that is read from an object is the one under the key.
pub proof fn law_field_is_read(
    fields: Seq<(Seq<char>, Seq<char>)>,
    json: &str,
    key: &str,
    r: Option<String>,
)
    requires
        json@ == seq!['{'] + linux::target_app::written(fields),
        call_ensures(linux::target_app::json_string_field, (json, key), r),
    ensures
        r is Some <==> linux::target_app::value_under(fields, key@) is Some,
        r matches Some(v) ==> linux::target_app::value_under(fields, key@) == Some(v@),
{
    linux::target_app::law_value_stands_under_its_key(fields, key@);
}

} // verus!
