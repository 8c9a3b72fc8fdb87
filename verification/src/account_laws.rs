//! What is kept and told of a dictation: the terms that were set, the times that were
//! taken, and what is said of them.

use vstd::prelude::*;
use crate::asr;
use crate::asr::{Line, RawLine};
use crate::control;
use crate::dictionary_text;
use crate::dictionary_text_laws;
use crate::format::Formatter;
use crate::number;
use crate::overlay_model::OverlayState;
use crate::reports;
use crate::session;
use crate::session::{Desktop, EffectView, Session};
use crate::session_laws;
use crate::settings::SettingsView;
use crate::settings_ui;
use crate::trace;
use crate::trace::{Spans, Utterance};
use crate::wav::WavError;
use crate::words;
use crate::words_laws;

verus! {

// ---- terms ----------------------------------------------------------------------------

/// Whether a term stands in a list between commas, or between a comma and an end of it.
pub open spec fn listed(list: Seq<char>, term: Seq<char>) -> bool {
    exists|before: Seq<char>, after: Seq<char>|
        {
            &&& list == #[trigger] (before + term + after)
            &&& before.len() == 0 || before.last() == ','
            &&& after.len() == 0 || after[0] == ','
        }
}

proof fn lemma_joined_lists(terms: Seq<Seq<char>>, k: int)
    requires
        0 <= k < terms.len(),
    ensures
        listed(words::joined(terms, ","@), terms[k]),
    decreases terms.len(),
{
    reveal_strlit(",");
    assert(","@ =~= seq![',']);
    let less = terms.drop_last();
    words_laws::law_joining_one_more(less, ","@, terms.last());
    assert(less.push(terms.last()) =~= terms);
    let all = words::joined(terms, ","@);
    let start = words::joined(less, ","@);
    if k == terms.len() - 1 {
        let before = if less.len() == 0 {
            Seq::<char>::empty()
        } else {
            start + ","@
        };
        let after = Seq::<char>::empty();
        assert(all =~= before + terms[k] + after);
    } else {
        lemma_joined_lists(less, k);
        assert(less[k] == terms[k]);
        let (before, after) = choose|before: Seq<char>, after: Seq<char>|
            {
                &&& start == #[trigger] (before + less[k] + after)
                &&& before.len() == 0 || before.last() == ','
                &&& after.len() == 0 || after[0] == ','
            };
        let longer = after + ","@ + terms.last();
        assert(all =~= before + terms[k] + longer);
        assert(longer[0] == ',');
    }
}

/// The terms that bias the recogniser are a list with commas, and every written form of the
/// dictionary is one of them.
pub proof fn law_terms_list_every_written_form(s: SettingsView, e: (Seq<char>, Seq<char>))
    requires
        s.dictionary.contains(e),
    ensures
        listed(session::terms_for(s), e.1),
{
    session_laws::law_terms_are_the_written_forms(s.dictionary, e);
    let terms = crate::format::longest_first(crate::format::lowered(s.dictionary)).map_values(
        |p: (Seq<char>, Seq<char>)| p.1,
    );
    let k = terms.index_of(e.1);
    assert(terms[k] == e.1);
    lemma_joined_lists(terms, k);
}

/// Without a dictionary there are no terms.
pub proof fn law_no_terms_without_a_dictionary(s: SettingsView)
    requires
        s.dictionary.len() == 0,
    ensures
        session::terms_for(s).len() == 0,
{
    let low = crate::format::lowered(s.dictionary);
    assert(low.len() == 0);
    crate::format::law_longest_first(low, 0);
    let sorted = crate::format::longest_first(low);
    assert(sorted.len() == 0);
    let terms = sorted.map_values(|p: (Seq<char>, Seq<char>)| p.1);
    assert(terms.len() == 0);
}

/// A formatter that follows settings has every switch as they have it, and what it makes of
/// a text is what the settings ask for.
pub proof fn law_formatter_follows_every_switch(f: Formatter, s: SettingsView, raw: Seq<char>)
    requires
        session::follows(f, s),
    ensures
        f.capitalise_sentences == s.formatting.capitalise_sentences,
        f.spoken_punctuation == s.formatting.spoken_punctuation,
        f.trailing_space == s.formatting.trailing_space,
        f.replacements() == crate::format::longest_first(crate::format::lowered(s.dictionary)),
        f.result(raw) == session::result_for(s, raw),
        session::result_for(s, raw) == crate::format::formatted(
            raw,
            f.replacements(),
            s.formatting.capitalise_sentences,
            s.formatting.spoken_punctuation,
            s.formatting.trailing_space,
        ),
{
}

// ---- times ----------------------------------------------------------------------------

/// The first partial of an utterance is timed and no later one; the release is timed with
/// what was captured until then; the end is timed, and says how long the text is. Nothing
/// else of the account changes.
pub proof fn law_times_are_taken_once(
    u: Utterance,
    now: i64,
    packet: i64,
    peak: u32,
    text: Seq<char>,
)
    requires
        text.len() <= usize::MAX,
    ensures
        u.t6_first_partial == 0 ==> session::heard(Some(u), now) == Some(
            Utterance { t6_first_partial: now, ..u },
        ),
        u.t6_first_partial != 0 ==> session::heard(Some(u), now) == Some(u),
        session::heard(None, now) is None,
        session::let_go(Some(u), now, packet, peak) == Some(
            Utterance { t7_hotkey_up: now, t1_first_packet: packet, peak_milli: peak, ..u },
        ),
        session::let_go(None, now, packet, peak) is None,
        session::finished(Some(u), text, now) matches Some((said, v)) && said == text
            && v.chars == text.len() && v.t9_final_ready == now && v == (Utterance {
            chars: v.chars,
            t9_final_ready: now,
            ..u
        }),
        session::finished(None, text, now) is None,
{
}

/// What belongs to another utterance than the one under way is not heeded.
pub proof fn law_only_the_utterance_under_way_is_heeded(
    u: Option<Utterance>,
    current: u64,
    number: u64,
)
    ensures
        number == current ==> session::heeded(u, current, number) == u,
        number != current ==> session::heeded(u, current, number) is None,
{
}

/// What is said of an insertion: how long it took, and the words where they are to be
/// echoed, or how many characters they are.
pub proof fn law_outcome_says_how_long(text: Seq<char>, waited: Seq<char>)
    ensures
        session::outcome(text, waited, true) == waited + " ms  "@ + words::trim(text),
        session::outcome(text, waited, false) == waited + " ms  "@ + number::decimal(
            words::trim(text).len(),
        ) + " characters"@,
{
}

// ---- reports --------------------------------------------------------------------------

/// The account of a dictionary says how many entries there are, shows each of them, and
/// shows what becomes of a text.
pub proof fn law_account_shows_every_entry(
    s: SettingsView,
    text: Seq<char>,
    e: (Seq<char>, Seq<char>),
)
    requires
        words::trim(text).len() > 0,
    ensures
        ({
            let lines = reports::explained(s, text);
            &&& lines[0] == "dictionary: "@ + number::decimal(s.dictionary.len()) + " entries"@
            &&& s.dictionary.contains(e) ==> lines.contains(
                "  heard \""@ + e.0 + "\"  ->  written \""@ + e.1 + "\""@,
            )
            &&& s.dictionary.len() > 0 ==> lines.contains("  "@ + session::terms_for(s))
            &&& lines.contains("as recognised: "@ + text)
            &&& lines.contains("as inserted:   "@ + session::result_for(s, text))
        }),
{
    broadcast use vstd::seq_lib::group_to_multiset_ensures;

    let lines = reports::explained(s, text);
    let first = seq!["dictionary: "@ + number::decimal(s.dictionary.len()) + " entries"@];
    let entries = reports::explained_entries(s);
    let switches = seq![""@, reports::explained_switches(s), ""@];
    let work = reports::shown_at_work(s, reports::samples(text));
    assert(lines == first + entries + switches + work);
    assert(lines[0] == first[0]);
    let said = seq![text];
    assert(reports::samples(text) == said);
    assert(said.drop_last() =~= Seq::<Seq<char>>::empty());
    assert(reports::shown_at_work(s, said.drop_last()) =~= Seq::<Seq<char>>::empty());
    assert(said.last() == text);
    assert(work =~= seq![
        "as recognised: "@ + text,
        "as inserted:   "@ + session::result_for(s, text),
        ""@,
    ]);
    let at = 1 + entries.len() as int + 3;
    assert(lines[at] == work[0]);
    assert(lines[at + 1] == work[1]);
    if s.dictionary.len() > 0 {
        let sorted = dictionary_text::in_order(s.dictionary);
        let shown = sorted.map_values(|p: (Seq<char>, Seq<char>)| reports::explained_entry(p));
        dictionary_text_laws::law_shown_in_order(s.dictionary);
        let n = shown.len() as int;
        assert(entries[n + 2] == "  "@ + session::terms_for(s));
        assert(lines[1 + n + 2] == entries[n + 2]);
        if s.dictionary.contains(e) {
            assert(s.dictionary.to_multiset().count(e) > 0);
            assert(sorted.contains(e));
            let k = sorted.index_of(e);
            assert(shown[k] == reports::explained_entry(e));
            assert(entries[k] == shown[k]);
            assert(lines[1 + k] == entries[k]);
        }
    }
}

/// The switches are named one by one.
pub proof fn law_account_names_the_switches(s: SettingsView)
    ensures
        ({
            let said = |b: bool|
                if b {
                    "true"@
                } else {
                    "false"@
                };
            reports::explained_switches(s) == "formatting: capitals "@ + said(
                s.formatting.capitalise_sentences,
            ) + ", spoken punctuation "@ + said(s.formatting.spoken_punctuation)
                + ", trailing space "@ + said(s.formatting.trailing_space)
        }),
{
}

/// After a test of saving, every entry that is on disk is shown.
pub proof fn law_selftest_shows_every_entry(
    saved: bool,
    d: Seq<(Seq<char>, Seq<char>)>,
    e: (Seq<char>, Seq<char>),
)
    ensures
        ({
            let lines = reports::selftest_lines(saved, d);
            &&& lines.len() == d.len() + 2
            &&& lines[0] == "saved: "@ + if saved {
                "true"@
            } else {
                "false"@
            }
            &&& lines[1] == "entries now on disk: "@ + number::decimal(d.len())
            &&& d.contains(e) ==> lines.contains("  \""@ + e.0 + "\" -> \""@ + e.1 + "\""@)
        }),
{
    broadcast use vstd::seq_lib::group_to_multiset_ensures;

    let lines = reports::selftest_lines(saved, d);
    let sorted = dictionary_text::in_order(d);
    dictionary_text_laws::law_shown_in_order(d);
    assert(sorted.to_multiset().len() == d.to_multiset().len());
    assert(sorted.len() == d.len());
    if d.contains(e) {
        assert(d.to_multiset().count(e) > 0);
        assert(sorted.contains(e));
        let k = sorted.index_of(e);
        assert(lines[2 + k] == "  \""@ + e.0 + "\" -> \""@ + e.1 + "\""@);
    }
}

// ---- what is said of failures ---------------------------------------------------------

/// A code of the recogniser is told in its own words, or as a number where it has none;
/// nought is no failure.
pub proof fn law_codes_are_told(code: int, words_for_it: Seq<char>)
    ensures
        asr::error_text(0, Some(words_for_it)) == "ok"@,
        asr::error_text(0, None) == "ok"@,
        code != 0 ==> asr::error_text(code, Some(words_for_it)) == words_for_it,
        code > 0 ==> asr::error_text(code, None) == "unknown moonshine error "@ + number::decimal(
            code as nat,
        ),
        code < 0 ==> asr::error_text(code, None) == "unknown moonshine error "@ + (seq!['-']
            + number::decimal((-code) as nat)),
{
}

/// What is said of a file names it.
pub proof fn law_files_are_complained_of_by_name(path: Seq<char>, format: u16, bits: u16)
    ensures
        WavError::NotWave.text(path) == path + ": not a RIFF/WAVE file"@,
        WavError::ShortFormat.text(path) == path + ": short fmt chunk"@,
        WavError::NoData.text(path) == path + ": no data chunk"@,
        (WavError::Unsupported { format, bits }).text(path) == path + ": unsupported format "@
            + number::decimal(format as nat) + " / "@ + number::decimal(bits as nat) + " bits"@,
{
}

/// Lines of a dictionary that came to nothing are told of: how many there are that hold an
/// entry, of how many that are neither blank nor a note. Nothing is said where none was lost.
pub proof fn law_lost_lines_are_told(text: Seq<char>)
    ensures
        ({
            let kept = dictionary_text::entries_of(words::lines(text)).len();
            let all = dictionary_text::meant_count(words::lines(text));
            &&& kept == all ==> settings_ui::lost_lines(text) is None
            &&& kept != all ==> settings_ui::lost_lines(text) == Some(
                "dictionary: kept "@ + number::decimal(kept) + " of "@ + number::decimal(all)
                    + " lines"@,
            )
        }),
{
}

/// Every line counts that is neither blank nor a note.
pub proof fn law_lines_that_count(lines: Seq<Seq<char>>, line: Seq<char>)
    ensures
        dictionary_text::meant_count(lines.push(line)) == dictionary_text::meant_count(lines) + (
        if words::trim(line).len() == 0 || words::trim(line)[0] == '#' {
            0nat
        } else {
            1
        }),
        dictionary_text::meant_count(Seq::empty()) == 0,
{
    assert(lines.push(line).drop_last() =~= lines);
}

// ---- what the recogniser hands over ---------------------------------------------------

/// A line is taken over as it is: a text that is missing is empty, and a flag is up where
/// its number is not nought.
pub proof fn law_lines_are_taken_over(raw: RawLine, l: Line)
    requires
        asr::copy_of(raw, l),
    ensures
        raw.text matches Some(t) ==> l.text@ == t@,
        raw.text is None ==> l.text@.len() == 0,
        l.id == raw.id,
        l.start_bits == raw.start_bits && l.duration_bits == raw.duration_bits,
        l.last_latency_ms == raw.last_latency_ms,
        l.is_complete <==> raw.is_complete != 0,
        l.is_updated <==> raw.is_updated != 0,
        l.is_new <==> raw.is_new != 0,
{
}

// ---- pausing and reloading ------------------------------------------------------------

/// A pause drops what is under way, stops the microphone and hides the pill before it is
/// shown; going on again starts nothing by itself.
pub proof fn law_pause_drops_what_is_under_way()
    ensures
        ({
            let p = session::toggled(true);
            let r = session::toggled(false);
            &&& p.len() == 6
            &&& p[0] == EffectView::Disarm
            &&& p[1] == EffectView::CancelAsr
            &&& p[2] == EffectView::ClearSink
            &&& p[3] == EffectView::Overlay(OverlayState::Hidden, Seq::empty())
            &&& p[4] == EffectView::SetPaused(true)
            &&& p[5] == EffectView::Say("Dictation paused"@)
            &&& r == seq![EffectView::SetPaused(false), EffectView::Say("Dictation enabled"@)]
        }),
{
    reveal_strlit("");
    assert(""@ =~= Seq::<char>::empty());
}

/// Another model is needed where the profile, the directory, the threading or the bias is
/// another, and for no other reason.
pub proof fn law_model_is_reloaded_for_a_reason(a: Session, s: SettingsView)
    ensures
        session::model_changed(a, s) <==> !(s.model.profile == a.loaded_profile@ && s.model.dir
            == a.loaded_dir@ && s.model.single_thread == a.loaded_single_thread
            && s.model.keyterm_boost == a.loaded_boost@),
{
}

/// A key that is known is bound, and the pill reminds of it; one that is not changes
/// nothing.
pub proof fn law_known_keys_are_bound(desktop: Desktop, key: Seq<char>)
    ensures
        session::code_on(desktop, key) matches Some(c) ==> session::rebound(desktop, key) == seq![
            EffectView::Rebind(c),
            EffectView::Remind(control::label_of(key)),
        ],
        session::code_on(desktop, key) is None ==> session::rebound(desktop, key).len() == 0,
{
}

// ---- the trace ------------------------------------------------------------------------

/// A figure stands in a record under its name: with quotes and a colon before it, and a
/// comma, a quote or the closing bracket behind.
pub open spec fn recorded(json: Seq<char>, name: Seq<char>, figure: Seq<char>) -> bool {
    exists|before: Seq<char>, after: Seq<char>|
        {
            &&& json == #[trigger] (before + name + figure + after)
            &&& after.len() > 0 && (after[0] == ',' || after[0] == '}' || after[0] == '"')
        }
}

/// A record holds every figure of an utterance under its name: a partial that never came is
/// null, and nothing of the text is in it but its length.
pub proof fn law_record_holds_every_figure(u: Utterance, s: Spans)
    ensures
        ({
            let json = trace::json_of(u, s);
            let partial = match s.first_partial {
                Some(f) => f@,
                None => "null"@,
            };
            let terminal = if u.terminal {
                "true"@
            } else {
                "false"@
            };
            &&& recorded(json, "\"user_perceived_ms\":"@, s.user_perceived@)
            &&& recorded(json, "\"activation_ms\":"@, s.activation@)
            &&& recorded(json, "\"arm_ms\":"@, s.arm@)
            &&& recorded(json, "\"finalisation_ms\":"@, s.finalisation@)
            &&& recorded(json, "\"insertion_ms\":"@, s.insertion@)
            &&& recorded(json, "\"first_partial_ms\":"@, partial)
            &&& recorded(json, "\"chars\":"@, number::decimal(u.chars as nat))
            &&& recorded(json, "\"reset_us\":"@, number::decimal(u.reset_us as nat))
            &&& recorded(json, "\"start_us\":"@, number::decimal(u.start_us as nat))
            &&& recorded(json, "\"peak_level\":"@, s.peak_level@)
            &&& recorded(json, "\"insert_mode\":\""@, u.insert_mode@)
            &&& recorded(json, "\"terminal\":"@, terminal)
        }),
{
    let json = trace::json_of(u, s);
    let partial = match s.first_partial {
        Some(f) => f@,
        None => "null"@,
    };
    let terminal = if u.terminal {
        "true"@
    } else {
        "false"@
    };
    reveal_strlit("{\"user_perceived_ms\":");
    reveal_strlit("\"user_perceived_ms\":");
    reveal_strlit(",\"activation_ms\":");
    reveal_strlit("\"activation_ms\":");
    reveal_strlit(",\"arm_ms\":");
    reveal_strlit("\"arm_ms\":");
    reveal_strlit(",\"finalisation_ms\":");
    reveal_strlit("\"finalisation_ms\":");
    reveal_strlit(",\"insertion_ms\":");
    reveal_strlit("\"insertion_ms\":");
    reveal_strlit(",\"first_partial_ms\":");
    reveal_strlit("\"first_partial_ms\":");
    reveal_strlit(",\"chars\":");
    reveal_strlit("\"chars\":");
    reveal_strlit(",\"reset_us\":");
    reveal_strlit("\"reset_us\":");
    reveal_strlit(",\"start_us\":");
    reveal_strlit("\"start_us\":");
    reveal_strlit(",\"peak_level\":");
    reveal_strlit("\"peak_level\":");
    reveal_strlit(",             \"insert_mode\":\"");
    reveal_strlit("\"insert_mode\":\"");
    reveal_strlit("\",\"terminal\":");
    reveal_strlit("\"terminal\":");
    reveal_strlit("}");
    let p0 = Seq::<(Seq<char>, Seq<char>)>::empty();
    let p1 = p0.push(("{\"user_perceived_ms\":"@, s.user_perceived@));
    let p2 = p1.push((",\"activation_ms\":"@, s.activation@));
    let p3 = p2.push((",\"arm_ms\":"@, s.arm@));
    let p4 = p3.push((",\"finalisation_ms\":"@, s.finalisation@));
    let p5 = p4.push((",\"insertion_ms\":"@, s.insertion@));
    let p6 = p5.push((",\"first_partial_ms\":"@, partial));
    let p7 = p6.push((",\"chars\":"@, number::decimal(u.chars as nat)));
    let p8 = p7.push((",\"reset_us\":"@, number::decimal(u.reset_us as nat)));
    let p9 = p8.push((",\"start_us\":"@, number::decimal(u.start_us as nat)));
    let p10 = p9.push((",\"peak_level\":"@, s.peak_level@));
    let p11 = p10.push((",             \"insert_mode\":\""@, u.insert_mode@));
    let p12 = p11.push(("\",\"terminal\":"@, terminal));
    lemma_strung_longer(p0, "{\"user_perceived_ms\":"@, s.user_perceived@);
    lemma_strung_longer(p1, ",\"activation_ms\":"@, s.activation@);
    lemma_strung_longer(p2, ",\"arm_ms\":"@, s.arm@);
    lemma_strung_longer(p3, ",\"finalisation_ms\":"@, s.finalisation@);
    lemma_strung_longer(p4, ",\"insertion_ms\":"@, s.insertion@);
    lemma_strung_longer(p5, ",\"first_partial_ms\":"@, partial);
    lemma_strung_longer(p6, ",\"chars\":"@, number::decimal(u.chars as nat));
    lemma_strung_longer(p7, ",\"reset_us\":"@, number::decimal(u.reset_us as nat));
    lemma_strung_longer(p8, ",\"start_us\":"@, number::decimal(u.start_us as nat));
    lemma_strung_longer(p9, ",\"peak_level\":"@, s.peak_level@);
    lemma_strung_longer(p10, ",             \"insert_mode\":\""@, u.insert_mode@);
    lemma_strung_longer(p11, "\",\"terminal\":"@, terminal);
    assert(strung(p0) + "{\"user_perceived_ms\":"@ =~= "{\"user_perceived_ms\":"@);
    assert(json == strung(p12) + "}"@);
    assert forall|i: int| 0 < i < 12 implies (#[trigger] p12[i]).0.len() > 0 && (p12[i].0[0] == ','
        || p12[i].0[0] == '"') by {}
    assert("{\"user_perceived_ms\":"@.skip(1) =~= "\"user_perceived_ms\":"@);
    lemma_strung(p12, "}"@, 0, "\"user_perceived_ms\":"@);
    assert(",\"activation_ms\":"@.skip(1) =~= "\"activation_ms\":"@);
    lemma_strung(p12, "}"@, 1, "\"activation_ms\":"@);
    assert(",\"arm_ms\":"@.skip(1) =~= "\"arm_ms\":"@);
    lemma_strung(p12, "}"@, 2, "\"arm_ms\":"@);
    assert(",\"finalisation_ms\":"@.skip(1) =~= "\"finalisation_ms\":"@);
    lemma_strung(p12, "}"@, 3, "\"finalisation_ms\":"@);
    assert(",\"insertion_ms\":"@.skip(1) =~= "\"insertion_ms\":"@);
    lemma_strung(p12, "}"@, 4, "\"insertion_ms\":"@);
    assert(",\"first_partial_ms\":"@.skip(1) =~= "\"first_partial_ms\":"@);
    lemma_strung(p12, "}"@, 5, "\"first_partial_ms\":"@);
    assert(",\"chars\":"@.skip(1) =~= "\"chars\":"@);
    lemma_strung(p12, "}"@, 6, "\"chars\":"@);
    assert(",\"reset_us\":"@.skip(1) =~= "\"reset_us\":"@);
    lemma_strung(p12, "}"@, 7, "\"reset_us\":"@);
    assert(",\"start_us\":"@.skip(1) =~= "\"start_us\":"@);
    lemma_strung(p12, "}"@, 8, "\"start_us\":"@);
    assert(",\"peak_level\":"@.skip(1) =~= "\"peak_level\":"@);
    lemma_strung(p12, "}"@, 9, "\"peak_level\":"@);
    assert(",             \"insert_mode\":\""@.skip(14) =~= "\"insert_mode\":\""@);
    lemma_strung(p12, "}"@, 10, "\"insert_mode\":\""@);
    assert("\",\"terminal\":"@.skip(2) =~= "\"terminal\":"@);
    lemma_strung(p12, "}"@, 11, "\"terminal\":"@);
}

/// Keys and figures one behind the other.
spec fn strung(pieces: Seq<(Seq<char>, Seq<char>)>) -> Seq<char>
    decreases pieces.len(),
{
    if pieces.len() == 0 {
        seq![]
    } else {
        strung(pieces.drop_last()) + pieces.last().0 + pieces.last().1
    }
}

proof fn lemma_strung_longer(
    pieces: Seq<(Seq<char>, Seq<char>)>,
    key: Seq<char>,
    figure: Seq<char>,
)
    ensures
        strung(pieces.push((key, figure))) == strung(pieces) + key + figure,
{
    assert(pieces.push((key, figure)).drop_last() =~= pieces);
}

proof fn lemma_strung(
    pieces: Seq<(Seq<char>, Seq<char>)>,
    end: Seq<char>,
    k: int,
    name: Seq<char>,
)
    requires
        0 <= k < pieces.len(),
        name.len() <= pieces[k].0.len(),
        pieces[k].0.skip(pieces[k].0.len() - name.len()) == name,
        forall|i: int|
            k < i < pieces.len() ==> (#[trigger] pieces[i]).0.len() > 0 && (pieces[i].0[0] == ','
                || pieces[i].0[0] == '"'),
        end.len() > 0,
        end[0] == ',' || end[0] == '}' || end[0] == '"',
    ensures
        recorded(strung(pieces) + end, name, pieces[k].1),
    decreases pieces.len(),
{
    let less = pieces.drop_last();
    let last = pieces.last();
    if k == pieces.len() - 1 {
        lemma_recorded(strung(less), last.0, name, last.1, end);
    } else {
        assert(less[k] == pieces[k]);
        lemma_strung(less, last.0, k, name);
        lemma_recorded_still(strung(less) + last.0, last.1, name, pieces[k].1);
        lemma_recorded_still(strung(pieces), end, name, pieces[k].1);
    }
}

proof fn lemma_recorded(
    p: Seq<char>,
    key: Seq<char>,
    name: Seq<char>,
    figure: Seq<char>,
    next: Seq<char>,
)
    requires
        name.len() <= key.len(),
        key.skip(key.len() - name.len()) == name,
        next.len() > 0,
        next[0] == ',' || next[0] == '}' || next[0] == '"',
    ensures
        recorded(p + key + figure + next, name, figure),
{
    let before = p + key.take(key.len() - name.len());
    assert(key =~= key.take(key.len() - name.len()) + name);
    assert(p + key + figure + next =~= before + name + figure + next);
}

proof fn lemma_recorded_still(
    json: Seq<char>,
    more: Seq<char>,
    name: Seq<char>,
    figure: Seq<char>,
)
    requires
        recorded(json, name, figure),
    ensures
        recorded(json + more, name, figure),
{
    let (before, after) = choose|before: Seq<char>, after: Seq<char>|
        {
            &&& json == #[trigger] (before + name + figure + after)
            &&& after.len() > 0 && (after[0] == ',' || after[0] == '}' || after[0] == '"')
        };
    assert(json + more =~= before + name + figure + (after + more));
    assert((after + more)[0] == after[0]);
}

} // verus!
