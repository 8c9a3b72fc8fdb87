//! What the app says when it is asked about itself.

use vstd::prelude::*;
use crate::asr_service::{Event, EventView};
use crate::audio::{CaptureStats, TARGET_SR};
use crate::chars;
use crate::chars::{from_chars, push_str, to_chars};
use crate::dictionary;
use crate::dictionary_text;
use crate::dictionary_text::sorted_entries;
use crate::format::Formatter;
use crate::number;
use crate::number::{push_decimal, to_decimal};
use crate::session;
use crate::session::{formatter_for, threading_text, Session};
use crate::settings::{Settings, SettingsView};
use crate::words;
use crate::words::{copy_range, trim_chars, Class};

verus! {

fn add_line(out: &mut Vec<String>, s: String)
    ensures
        chars::texts(final(out)@) == chars::texts(old(out)@).push(s@),
{
    out.push(s);
    assert(chars::texts(out@) =~= chars::texts(old(out)@).push(s@));
}

fn glued(a: &str, b: &str, c: &str) -> (s: String)
    ensures
        s@ == a@ + b@ + c@,
{
    let mut s: String = a.to_owned();
    push_str(&mut s, b);
    push_str(&mut s, c);
    s
}

/// A switch in words.
pub open spec fn on_off(b: bool) -> Seq<char> {
    if b {
        "true"@
    } else {
        "false"@
    }
}

fn switch_text(b: bool) -> (s: &'static str)
    ensures
        s@ == on_off(b),
{
    if b {
        "true"
    } else {
        "false"
    }
}

// ---- the dictionary ---------------------------------------------------------------

/// An entry as it is explained.
pub open spec fn explained_entry(e: (Seq<char>, Seq<char>)) -> Seq<char> {
    "  heard \""@ + e.0 + "\"  ->  written \""@ + e.1 + "\""@
}

/// The lines that explain the entries of a dictionary and what the recogniser is
/// told of them.
pub open spec fn explained_entries(s: SettingsView) -> Seq<Seq<char>> {
    if s.dictionary.len() == 0 {
        seq!["  (empty, so it changes nothing. Add entries in the settings window.)"@]
    } else {
        dictionary_text::in_order(s.dictionary).map_values(
            |e: (Seq<char>, Seq<char>)| explained_entry(e),
        ) + seq![
            ""@,
            "sent to the recogniser as key terms (bias "@ + s.model.keyterm_boost + "):"@,
            "  "@ + session::terms_for(s),
        ]
    }
}

/// The line that names the switches.
pub open spec fn explained_switches(s: SettingsView) -> Seq<char> {
    "formatting: capitals "@ + on_off(s.formatting.capitalise_sentences)
        + ", spoken punctuation "@ + on_off(s.formatting.spoken_punctuation)
        + ", trailing space "@ + on_off(s.formatting.trailing_space)
}

/// The texts that the dictionary is shown at work on: the one that was given, or
/// two examples where none was.
pub open spec fn samples(text: Seq<char>) -> Seq<Seq<char>> {
    if words::trim(text).len() == 0 {
        seq![
            "hello there comma this is a test full stop"@,
            "we ship on friday new line then we review"@,
        ]
    } else {
        seq![text]
    }
}

/// The lines that show what becomes of texts.
pub open spec fn shown_at_work(s: SettingsView, texts: Seq<Seq<char>>) -> Seq<Seq<char>>
    decreases texts.len(),
{
    if texts.len() == 0 {
        seq![]
    } else {
        shown_at_work(s, texts.drop_last()) + seq![
            "as recognised: "@ + texts.last(),
            "as inserted:   "@ + session::result_for(s, texts.last()),
            ""@,
        ]
    }
}

fn entry_lines(s: &Settings, f: &Formatter) -> (out: Vec<String>)
    requires
        session::follows(*f, s@),
    ensures
        chars::texts(out@) == explained_entries(s@),
{
    let mut out: Vec<String> = Vec::new();
    assert(chars::texts(out@) =~= seq![]);
    if s.dictionary.is_empty() {
        add_line(
            &mut out,
            "  (empty, so it changes nothing. Add entries in the settings window.)".to_owned(),
        );
        assert(chars::texts(out@) =~= explained_entries(s@));
        return out;
    }
    let entries: Vec<(String, String)> = sorted_entries(&s.dictionary);
    let ghost all = dictionary_text::in_order(s@.dictionary).map_values(
        |e: (Seq<char>, Seq<char>)| explained_entry(e),
    );
    let mut i: usize = 0;
    assert(chars::texts(out@) =~= all.take(0));
    while i < entries.len()
        invariant
            i <= entries@.len(),
            dictionary::pairs(entries@) == dictionary_text::in_order(s@.dictionary),
            all == dictionary_text::in_order(s@.dictionary).map_values(
                |e: (Seq<char>, Seq<char>)| explained_entry(e),
            ),
            chars::texts(out@) == all.take(i as int),
        decreases entries@.len() - i,
    {
        let ghost before = chars::texts(out@);
        let mut line: String = glued(
            "  heard \"",
            entries[i].0.as_str(),
            "\"  ->  written \"",
        );
        push_str(&mut line, entries[i].1.as_str());
        push_str(&mut line, "\"");
        proof {
            let e = dictionary::pairs(entries@)[i as int];
            assert(line@ =~= explained_entry(e));
            assert(all[i as int] == explained_entry(e));
        }
        add_line(&mut out, line);
        i += 1;
        assert(all.take(i as int) =~= before.push(all[i - 1]));
    }
    assert(all.take(i as int) =~= all);
    add_line(&mut out, "".to_owned());
    add_line(
        &mut out,
        glued(
            "sent to the recogniser as key terms (bias ",
            s.model.keyterm_boost.as_str(),
            "):",
        ),
    );
    let mut terms: String = "  ".to_owned();
    push_str(&mut terms, f.keyterms().as_str());
    add_line(&mut out, terms);
    assert(chars::texts(out@) =~= explained_entries(s@));
    out
}

fn work_lines(s: &Settings, f: &Formatter, texts: &[String]) -> (out: Vec<String>)
    requires
        session::follows(*f, s@),
    ensures
        chars::texts(out@) == shown_at_work(s@, chars::texts(texts@)),
{
    let ghost all = chars::texts(texts@);
    let mut out: Vec<String> = Vec::new();
    let mut i: usize = 0;
    assert(chars::texts(out@) =~= shown_at_work(s@, all.take(0)));
    while i < texts.len()
        invariant
            i <= texts@.len(),
            all == chars::texts(texts@),
            session::follows(*f, s@),
            chars::texts(out@) == shown_at_work(s@, all.take(i as int)),
        decreases texts@.len() - i,
    {
        let ghost before = chars::texts(out@);
        assert(all.take(i + 1).last() == texts@[i as int]@);
        assert(all.take(i + 1).drop_last() =~= all.take(i as int));
        let mut a: String = "as recognised: ".to_owned();
        push_str(&mut a, texts[i].as_str());
        let mut b: String = "as inserted:   ".to_owned();
        push_str(&mut b, f.format(texts[i].as_str()).as_str());
        let ghost three = seq![a@, b@, ""@];
        add_line(&mut out, a);
        add_line(&mut out, b);
        add_line(&mut out, "".to_owned());
        assert(chars::texts(out@) =~= before + three);
        i += 1;
    }
    assert(all.take(i as int) =~= all);
    out
}

/// Everything that is explained of a dictionary.
pub open spec fn explained(s: SettingsView, text: Seq<char>) -> Seq<Seq<char>> {
    seq!["dictionary: "@ + number::decimal(s.dictionary.len()) + " entries"@] + explained_entries(s)
        + seq![""@, explained_switches(s), ""@] + shown_at_work(s, samples(text))
}

/// Shows what the dictionary does, on a text that was given. It does two jobs
/// from one list: it biases the recogniser towards the written forms, and it
/// corrects what comes out.
pub fn explain_dictionary(s: &Settings, text: &str) -> (out: Vec<String>)
    ensures
        chars::texts(out@) == explained(s@, text@),
{
    let f: Formatter = formatter_for(s);
    let mut out: Vec<String> = Vec::new();
    assert(chars::texts(out@) =~= seq![]);
    let mut head: String = "dictionary: ".to_owned();
    push_decimal(&mut head, s.dictionary.len() as u64);
    push_str(&mut head, " entries");
    add_line(&mut out, head);
    let mut entries: Vec<String> = entry_lines(s, &f);
    append_lines(&mut out, &mut entries);
    add_line(&mut out, "".to_owned());
    let mut switches: String = "formatting: capitals ".to_owned();
    push_str(&mut switches, switch_text(s.formatting.capitalise_sentences));
    push_str(&mut switches, ", spoken punctuation ");
    push_str(&mut switches, switch_text(s.formatting.spoken_punctuation));
    push_str(&mut switches, ", trailing space ");
    push_str(&mut switches, switch_text(s.formatting.trailing_space));
    add_line(&mut out, switches);
    add_line(&mut out, "".to_owned());
    let mut texts: Vec<String> = Vec::new();
    assert(chars::texts(texts@) =~= seq![]);
    if trim_chars(to_chars(text).as_slice(), Class::Whitespace).len() == 0 {
        add_line(&mut texts, "hello there comma this is a test full stop".to_owned());
        add_line(&mut texts, "we ship on friday new line then we review".to_owned());
    } else {
        add_line(&mut texts, text.to_owned());
    }
    assert(chars::texts(texts@) =~= samples(text@));
    let mut work: Vec<String> = work_lines(s, &f, texts.as_slice());
    append_lines(&mut out, &mut work);
    assert(chars::texts(out@) =~= explained(s@, text@));
    out
}

fn append_lines(out: &mut Vec<String>, more: &mut Vec<String>)
    ensures
        chars::texts(final(out)@) == chars::texts(old(out)@) + chars::texts(old(more)@),
{
    out.append(more);
    assert(chars::texts(out@) =~= chars::texts(old(out)@) + chars::texts(old(more)@));
}

// ---- starting up ------------------------------------------------------------------

/// What is said when the app is ready: how long it took, how to dictate and what
/// was set. `path` is where the settings are kept.
pub fn ready(s: &Settings, elapsed: &str, path: &str) -> (out: Vec<String>)
    ensures
        chars::texts(out@) == seq![
            "Ready in "@ + elapsed@ + ". Hold "@ + s@.key + " to dictate."@,
            "Insertion: "@ + s@.insertion.mode + " normally, "@ + s@.insertion.terminal_mode
                + " in terminals."@,
            "Model: "@ + s@.model.profile + " profile, "@ + session::threading(
                s@.model.single_thread,
            ) + "."@,
            "Settings: "@ + path@,
        ],
{
    let mut first: String = glued("Ready in ", elapsed, ". Hold ");
    push_str(&mut first, s.hotkey.key.as_str());
    push_str(&mut first, " to dictate.");
    let mut second: String = glued("Insertion: ", s.insertion.mode.as_str(), " normally, ");
    push_str(&mut second, s.insertion.terminal_mode.as_str());
    push_str(&mut second, " in terminals.");
    let mut third: String = glued("Model: ", s.model.profile.as_str(), " profile, ");
    push_str(&mut third, threading_text(s.model.single_thread));
    push_str(&mut third, ".");
    let mut fourth: String = "Settings: ".to_owned();
    push_str(&mut fourth, path);
    let ghost lines = seq![first@, second@, third@, fourth@];
    let mut out: Vec<String> = Vec::new();
    assert(chars::texts(out@) =~= seq![]);
    add_line(&mut out, first);
    add_line(&mut out, second);
    add_line(&mut out, third);
    add_line(&mut out, fourth);
    assert(chars::texts(out@) =~= lines);
    out
}

/// What is said when the model directory is missing at start-up.
pub fn no_model(dir: &str) -> (s: String)
    ensures
        s@ == "No model at "@ + dir@ + ".\nRun scripts\\fetch-model.ps1 to download it."@,
{
    glued("No model at ", dir, ".\nRun scripts\\fetch-model.ps1 to download it.")
}

/// What is said when changed settings have been applied.
pub fn settings_applied(s: &Settings) -> (t: String)
    ensures
        t@ == "Settings applied: hold "@ + s@.key + ", "@ + s@.model.profile
            + " profile, insertion "@ + s@.insertion.mode + " / "@ + s@.insertion.terminal_mode
            + " in terminals, "@ + number::decimal(s@.dictionary.len())
            + " dictionary entries."@,
{
    let mut t: String = glued("Settings applied: hold ", s.hotkey.key.as_str(), ", ");
    push_str(&mut t, s.model.profile.as_str());
    push_str(&mut t, " profile, insertion ");
    push_str(&mut t, s.insertion.mode.as_str());
    push_str(&mut t, " / ");
    push_str(&mut t, s.insertion.terminal_mode.as_str());
    push_str(&mut t, " in terminals, ");
    push_decimal(&mut t, s.dictionary.len() as u64);
    push_str(&mut t, " dictionary entries.");
    t
}

/// What is said when the tray was asked to read the dictionary again.
pub fn dictionary_reloaded(s: &Settings) -> (t: String)
    ensures
        t@ == "Reloaded "@ + number::decimal(s@.dictionary.len()) + " dictionary entries."@,
{
    let mut t: String = "Reloaded ".to_owned();
    push_decimal(&mut t, s.dictionary.len() as u64);
    push_str(&mut t, " dictionary entries.");
    t
}

/// What is said after a dictionary has been put through the settings window:
/// whether it was saved, and the entries that are kept now.
pub open spec fn selftest_lines(saved: bool, d: Seq<(Seq<char>, Seq<char>)>) -> Seq<Seq<char>> {
    seq![
        "saved: "@ + on_off(saved),
        "entries now on disk: "@ + number::decimal(d.len()),
    ] + dictionary_text::in_order(d).map_values(
        |e: (Seq<char>, Seq<char>)| "  \""@ + e.0 + "\" -> \""@ + e.1 + "\""@,
    )
}

/// The report of the settings self-test.
pub fn selftest(saved: bool, after: &Settings) -> (out: Vec<String>)
    ensures
        chars::texts(out@) == selftest_lines(saved, after@.dictionary),
{
    let mut out: Vec<String> = Vec::new();
    assert(chars::texts(out@) =~= seq![]);
    let mut first: String = "saved: ".to_owned();
    push_str(&mut first, switch_text(saved));
    let mut second: String = "entries now on disk: ".to_owned();
    push_decimal(&mut second, after.dictionary.len() as u64);
    let ghost head = seq![first@, second@];
    add_line(&mut out, first);
    add_line(&mut out, second);
    let entries: Vec<(String, String)> = sorted_entries(&after.dictionary);
    let ghost all = dictionary_text::in_order(after@.dictionary).map_values(
        |e: (Seq<char>, Seq<char>)| "  \""@ + e.0 + "\" -> \""@ + e.1 + "\""@,
    );
    assert(chars::texts(out@) =~= head + all.take(0));
    let mut i: usize = 0;
    while i < entries.len()
        invariant
            i <= entries@.len(),
            dictionary::pairs(entries@) == dictionary_text::in_order(after@.dictionary),
            all == dictionary_text::in_order(after@.dictionary).map_values(
                |e: (Seq<char>, Seq<char>)| "  \""@ + e.0 + "\" -> \""@ + e.1 + "\""@,
            ),
            chars::texts(out@) == head + all.take(i as int),
        decreases entries@.len() - i,
    {
        let mut line: String = glued("  \"", entries[i].0.as_str(), "\" -> \"");
        push_str(&mut line, entries[i].1.as_str());
        push_str(&mut line, "\"");
        assert(dictionary::pairs(entries@)[i as int] == (entries@[i as int].0@, entries@[i as int].1@));
        assert(all.take(i + 1) =~= all.take(i as int).push(line@));
        add_line(&mut out, line);
        assert(chars::texts(out@) =~= head + all.take(i + 1));
        i += 1;
    }
    assert(all.take(i as int) =~= all);
    assert(chars::texts(out@) =~= selftest_lines(saved, after@.dictionary));
    out
}

// ---- the focus --------------------------------------------------------------------

/// What is said of the application that has the focus: `replacement` is how the
/// text that stands for a line break is shown.
pub fn which_app(a: &Session, exe: &str, replacement: &str) -> (out: Vec<String>)
    ensures
        ({
            let terminal = session::terminal_on(a.desktop, exe@, a.insertion@);
            chars::texts(out@) == seq![
                "foreground application: "@ + (if exe@.len() == 0 {
                    "unknown"@
                } else {
                    exe@
                }),
                "treated as a terminal:  "@ + on_off(terminal),
                "insertion would use:    "@ + (if terminal {
                    a.insertion@.terminal_mode
                } else {
                    a.insertion@.mode
                }),
            ] + (if terminal {
                seq![
                    "line breaks replaced with "@ + replacement@
                        + " so nothing can be executed"@,
                ]
            } else {
                seq![]
            })
        }),
{
    let terminal: bool = a.is_terminal(exe);
    let mut out: Vec<String> = Vec::new();
    assert(chars::texts(out@) =~= seq![]);
    let mut first: String = "foreground application: ".to_owned();
    if exe.is_empty() {
        push_str(&mut first, "unknown");
    } else {
        push_str(&mut first, exe);
    }
    add_line(&mut out, first);
    let mut second: String = "treated as a terminal:  ".to_owned();
    push_str(&mut second, switch_text(terminal));
    add_line(&mut out, second);
    let mut third: String = "insertion would use:    ".to_owned();
    if terminal {
        push_str(&mut third, a.insertion.terminal_mode.as_str());
    } else {
        push_str(&mut third, a.insertion.mode.as_str());
    }
    add_line(&mut out, third);
    if terminal {
        add_line(
            &mut out,
            glued("line breaks replaced with ", replacement, " so nothing can be executed"),
        );
    }
    assert(chars::texts(out@) =~= ({
        let terminal = session::terminal_on(a.desktop, exe@, a.insertion@);
        seq![
            "foreground application: "@ + (if exe@.len() == 0 {
                "unknown"@
            } else {
                exe@
            }),
            "treated as a terminal:  "@ + on_off(terminal),
            "insertion would use:    "@ + (if terminal {
                a.insertion@.terminal_mode
            } else {
                a.insertion@.mode
            }),
        ] + (if terminal {
            seq![
                "line breaks replaced with "@ + replacement@ + " so nothing can be executed"@,
            ]
        } else {
            seq![]
        })
    }));
    out
}

// ---- one dictation on a timer -------------------------------------------------------

/// What to do about an event of the recogniser.
pub enum Heed {
    Nothing,
    Say(String),
    Complain(String),
    /// The transcript is there.
    Done,
}

/// What to do about an event of the recogniser, before and after the release.
/// Until then a hypothesis is shown only when that was asked for.
pub fn heed(e: &Event, released: bool, echo: bool) -> (h: Heed)
    ensures
        match e@ {
            EventView::Partial { text, .. } => if released || echo {
                h matches Heed::Say(s) && s@ == "  partial: "@ + text
            } else {
                h is Nothing
            },
            EventView::Final { .. } => if released {
                h is Done
            } else {
                h is Nothing
            },
            EventView::Error(why) => if released {
                h matches Heed::Complain(s) && s@ == "asr: "@ + why
            } else {
                h is Nothing
            },
        },
{
    match e {
        Event::Partial { text, .. } => {
            if released || echo {
                let mut s: String = "  partial: ".to_owned();
                push_str(&mut s, text.as_str());
                Heed::Say(s)
            } else {
                Heed::Nothing
            }
        },
        Event::Final { .. } => {
            if released {
                Heed::Done
            } else {
                Heed::Nothing
            }
        },
        Event::Error(why) => {
            if released {
                let mut s: String = "asr: ".to_owned();
                push_str(&mut s, why.as_str());
                Heed::Complain(s)
            } else {
                Heed::Nothing
            }
        },
    }
}

/// What is said of a dictation on a timer: how long the transcript took, what came
/// back, and what would be inserted. The spans are written out in milliseconds.
pub fn dictation_report(text: &str, waited: &str, inflight: &str, drain: &str) -> (out: Vec<
    String,
>)
    ensures
        chars::texts(out@) == seq![
            ""@,
            "key up -> transcript: "@ + waited@ + " ms (in-flight "@ + inflight@ + ", drain "@
                + drain@ + ")"@,
            "raw:       "@ + text@,
            "formatted: "@ + crate::format::formatted(
                text@,
                Seq::<(Seq<char>, Seq<char>)>::empty(),
                true,
                true,
                true,
            ),
        ],
{
    let mut out: Vec<String> = Vec::new();
    assert(chars::texts(out@) =~= seq![]);
    let mut timing: String = glued("key up -> transcript: ", waited, " ms (in-flight ");
    push_str(&mut timing, inflight);
    push_str(&mut timing, ", drain ");
    push_str(&mut timing, drain);
    push_str(&mut timing, ")");
    let mut raw: String = "raw:       ".to_owned();
    push_str(&mut raw, text);
    let mut formatted: String = "formatted: ".to_owned();
    push_str(&mut formatted, Formatter::default().format(text).as_str());
    let ghost lines = seq![""@, timing@, raw@, formatted@];
    add_line(&mut out, "".to_owned());
    add_line(&mut out, timing);
    add_line(&mut out, raw);
    add_line(&mut out, formatted);
    assert(chars::texts(out@) =~= lines);
    out
}

// ---- the microphone and the pill ---------------------------------------------------

/// What a peak level in thousandths says of the room.
pub fn level_verdict(peak_milli: u32) -> (s: &'static str)
    ensures
        s@ == (if peak_milli > 5 {
            "audio present"@
        } else {
            "silence"@
        }),
{
    if peak_milli > 5 {
        "audio present"
    } else {
        "silence"
    }
}

/// What a test of the microphone found, its spans, rate and level written out.
pub struct MicFigures {
    pub first_packet: String,
    pub rate: String,
    pub peak: String,
    pub peak_milli: u32,
    pub samples: u32,
    pub seconds: u64,
}

/// What is said of a test of the microphone.
pub fn mic_report(f: &MicFigures, stats: &CaptureStats) -> (out: Vec<String>)
    ensures
        chars::texts(out@) == seq![
            "first packet "@ + f.first_packet@ + " ms after arm (reset "@ + number::decimal(
                stats.last_reset_us as nat,
            ) + " us, start "@ + number::decimal(stats.last_start_us as nat) + " us)"@,
            number::decimal(f.samples as nat) + " samples in "@ + number::decimal(
                f.seconds as nat,
            ) + " s = "@ + f.rate@ + " Hz after conversion (target "@ + number::decimal(
                TARGET_SR as nat,
            ) + ")"@,
            "packets "@ + number::decimal(stats.packets as nat) + ", glitches "@ + number::decimal(
                stats.glitches as nat,
            ) + ", device errors "@ + number::decimal(stats.device_errors as nat),
            "peak level "@ + f.peak@ + " ("@ + (if f.peak_milli > 5 {
                "audio present"@
            } else {
                "silence"@
            }) + ")"@,
        ],
{
    let mut first: String = glued("first packet ", f.first_packet.as_str(), " ms after arm (reset ");
    push_decimal(&mut first, stats.last_reset_us as u64);
    push_str(&mut first, " us, start ");
    push_decimal(&mut first, stats.last_start_us as u64);
    push_str(&mut first, " us)");
    let mut rate: String = to_decimal(f.samples as u64);
    push_str(&mut rate, " samples in ");
    push_decimal(&mut rate, f.seconds);
    push_str(&mut rate, " s = ");
    push_str(&mut rate, f.rate.as_str());
    push_str(&mut rate, " Hz after conversion (target ");
    push_decimal(&mut rate, TARGET_SR as u64);
    push_str(&mut rate, ")");
    let mut counts: String = "packets ".to_owned();
    push_decimal(&mut counts, stats.packets as u64);
    push_str(&mut counts, ", glitches ");
    push_decimal(&mut counts, stats.glitches as u64);
    push_str(&mut counts, ", device errors ");
    push_decimal(&mut counts, stats.device_errors as u64);
    let mut level: String = glued("peak level ", f.peak.as_str(), " (");
    push_str(&mut level, level_verdict(f.peak_milli));
    push_str(&mut level, ")");
    let ghost lines = seq![first@, rate@, counts@, level@];
    let mut out: Vec<String> = Vec::new();
    assert(chars::texts(out@) =~= seq![]);
    add_line(&mut out, first);
    add_line(&mut out, rate);
    add_line(&mut out, counts);
    add_line(&mut out, level);
    assert(chars::texts(out@) =~= lines);
    out
}

/// What the demonstration of the pill says where no text was given.
pub const DEMO_SCRIPT: &'static str = "this is what it looks like when the words keep coming";

/// The words that the demonstration shows from a frame on, if they change there:
/// half of the script, then all of it.
pub fn demo_words(frame: u32, text: &str) -> (w: Option<String>)
    ensures
        ({
            let script = if text@.len() == 0 {
                DEMO_SCRIPT@
            } else {
                text@
            };
            match w {
                Some(s) => {
                    ||| frame == 40 && s@ == words::trim(script.take(script.len() as int / 2))
                    ||| frame == 90 && s@ == script
                },
                None => frame != 40 && frame != 90,
            }
        }),
{
    let script: &str = if text.is_empty() {
        DEMO_SCRIPT
    } else {
        text
    };
    if frame == 40 {
        let cs: Vec<char> = to_chars(script);
        let half: Vec<char> = copy_range(cs.as_slice(), 0, cs.len() / 2);
        assert(cs@.subrange(0, cs@.len() as int / 2) =~= cs@.take(cs@.len() as int / 2));
        Some(from_chars(trim_chars(half.as_slice(), Class::Whitespace).as_slice()))
    } else if frame == 90 {
        Some(script.to_owned())
    } else {
        None
    }
}

} // verus!
