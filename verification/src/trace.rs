//! Latency instrumentation: when each step of a dictation happened, and what is
//! reported of it. A trace holds times and a character count, never the text.
//!
//! Moments are ticks of one monotonic clock; a moment of zero has not come.

use vstd::prelude::*;
use crate::chars::push_str;
use crate::number;
use crate::number::push_decimal;
use crate::stats;
use crate::stats::{report as report_of, Samples, Shown};

verus! {

/// One dictation, from key-down to text on screen.
#[derive(Clone, Copy)]
pub struct Utterance {
    pub t0_hotkey_down: i64,
    /// When the microphone was started. What lies between this and the key is
    /// speech that is already lost.
    pub t0b_armed: i64,
    pub t1_first_packet: i64,
    pub t6_first_partial: i64,
    pub t7_hotkey_up: i64,
    pub t9_final_ready: i64,
    pub t10_formatted: i64,
    pub t12_inserted: i64,
    pub chars: usize,
    /// What arming cost, in microseconds: emptying the device, and starting it.
    pub reset_us: u32,
    pub start_us: u32,
    /// Loudest sample of the utterance, in thousandths.
    pub peak_milli: u32,
    /// How the text was put in, and whether the target was a terminal.
    pub insert_mode: &'static str,
    pub terminal: bool,
}

/// Nothing has happened but that the key went down.
pub open spec fn fresh(u: Utterance, now: i64) -> bool {
    &&& u.t0_hotkey_down == now
    &&& u.t0b_armed == 0
    &&& u.t1_first_packet == 0
    &&& u.t6_first_partial == 0
    &&& u.t7_hotkey_up == 0
    &&& u.t9_final_ready == 0
    &&& u.t10_formatted == 0
    &&& u.t12_inserted == 0
    &&& u.chars == 0
    &&& u.reset_us == 0
    &&& u.start_us == 0
    &&& u.peak_milli == 0
    &&& u.insert_mode@ == "none"@
    &&& !u.terminal
}

impl Default for Utterance {
    fn default() -> (u: Utterance)
        ensures
            fresh(u, 0),
    {
        Utterance {
            t0_hotkey_down: 0,
            t0b_armed: 0,
            t1_first_packet: 0,
            t6_first_partial: 0,
            t7_hotkey_up: 0,
            t9_final_ready: 0,
            t10_formatted: 0,
            t12_inserted: 0,
            chars: 0,
            reset_us: 0,
            start_us: 0,
            peak_milli: 0,
            insert_mode: "none",
            terminal: false,
        }
    }
}

/// The ticks from one moment to another.
pub fn ticks_between(a: i64, b: i64) -> (d: i128)
    ensures
        d == b - a,
{
    b as i128 - a as i128
}

impl Utterance {
    /// A dictation whose key goes down now.
    pub fn begin(now: i64) -> (u: Utterance)
        ensures
            fresh(u, now),
    {
        let mut u: Utterance = Utterance::default();
        u.t0_hotkey_down = now;
        u
    }

    /// Key-up to text in the target application. The number that matters.
    pub fn user_perceived(&self) -> (d: i128)
        ensures
            d == self.t12_inserted - self.t7_hotkey_up,
    {
        ticks_between(self.t7_hotkey_up, self.t12_inserted)
    }

    pub fn activation(&self) -> (d: i128)
        ensures
            d == self.t1_first_packet - self.t0_hotkey_down,
    {
        ticks_between(self.t0_hotkey_down, self.t1_first_packet)
    }

    /// Key-down to microphone running.
    pub fn arm(&self) -> (d: i128)
        ensures
            d == self.t0b_armed - self.t0_hotkey_down,
    {
        ticks_between(self.t0_hotkey_down, self.t0b_armed)
    }

    pub fn finalisation(&self) -> (d: i128)
        ensures
            d == self.t9_final_ready - self.t7_hotkey_up,
    {
        ticks_between(self.t7_hotkey_up, self.t9_final_ready)
    }

    pub fn insertion(&self) -> (d: i128)
        ensures
            d == self.t12_inserted - self.t9_final_ready,
    {
        ticks_between(self.t9_final_ready, self.t12_inserted)
    }

    /// Key-down to the first live hypothesis, if there was one.
    pub fn first_partial(&self) -> (d: Option<i128>)
        ensures
            d == (if self.t6_first_partial == 0 {
                None
            } else {
                Some((self.t6_first_partial - self.t0_hotkey_down) as i128)
            }),
    {
        if self.t6_first_partial == 0 {
            None
        } else {
            Some(ticks_between(self.t0_hotkey_down, self.t6_first_partial))
        }
    }
}

/// The spans of a dictation as they are written out in milliseconds, and the peak.
pub struct Spans {
    pub user_perceived: String,
    pub activation: String,
    pub arm: String,
    pub finalisation: String,
    pub insertion: String,
    /// Missing where there was no live hypothesis.
    pub first_partial: Option<String>,
    pub peak_level: String,
}

/// A figure as a trace holds it: a missing one is null.
pub open spec fn or_null(figure: Option<String>) -> Seq<char> {
    match figure {
        Some(f) => f@,
        None => "null"@,
    }
}

/// A dictation as one line of a trace.
pub open spec fn json_of(u: Utterance, s: Spans) -> Seq<char> {
    "{\"user_perceived_ms\":"@ + s.user_perceived@ + ",\"activation_ms\":"@ + s.activation@
        + ",\"arm_ms\":"@ + s.arm@ + ",\"finalisation_ms\":"@ + s.finalisation@
        + ",\"insertion_ms\":"@ + s.insertion@ + ",\"first_partial_ms\":"@ + or_null(
        s.first_partial,
    ) + ",\"chars\":"@ + number::decimal(u.chars as nat) + ",\"reset_us\":"@ + number::decimal(
        u.reset_us as nat,
    ) + ",\"start_us\":"@ + number::decimal(u.start_us as nat) + ",\"peak_level\":"@
        + s.peak_level@ + ",             \"insert_mode\":\""@ + u.insert_mode@
        + "\",\"terminal\":"@ + (if u.terminal {
        "true"@
    } else {
        "false"@
    }) + "}"@
}

/// A dictation as one line of a trace.
pub fn to_json(u: &Utterance, s: &Spans) -> (out: String)
    ensures
        out@ == json_of(*u, *s),
{
    let mut out: String = "{\"user_perceived_ms\":".to_owned();
    push_str(&mut out, s.user_perceived.as_str());
    push_str(&mut out, ",\"activation_ms\":");
    push_str(&mut out, s.activation.as_str());
    push_str(&mut out, ",\"arm_ms\":");
    push_str(&mut out, s.arm.as_str());
    push_str(&mut out, ",\"finalisation_ms\":");
    push_str(&mut out, s.finalisation.as_str());
    push_str(&mut out, ",\"insertion_ms\":");
    push_str(&mut out, s.insertion.as_str());
    push_str(&mut out, ",\"first_partial_ms\":");
    push_str(
        &mut out,
        match &s.first_partial {
            Some(f) => f.as_str(),
            None => "null",
        },
    );
    push_str(&mut out, ",\"chars\":");
    push_decimal(&mut out, u.chars as u64);
    push_str(&mut out, ",\"reset_us\":");
    push_decimal(&mut out, u.reset_us as u64);
    push_str(&mut out, ",\"start_us\":");
    push_decimal(&mut out, u.start_us as u64);
    push_str(&mut out, ",\"peak_level\":");
    push_str(&mut out, s.peak_level.as_str());
    push_str(&mut out, ",             \"insert_mode\":\"");
    push_str(&mut out, u.insert_mode);
    push_str(&mut out, "\",\"terminal\":");
    push_str(
        &mut out,
        if u.terminal {
            "true"
        } else {
            "false"
        },
    );
    push_str(&mut out, "}");
    out
}

/// The spans of all dictations so far.
pub struct Accumulated {
    pub perceived: Samples,
    pub activation: Samples,
    pub finalisation: Samples,
    pub insertion: Samples,
    pub first_partial: Samples,
}

impl Accumulated {
    pub fn new() -> (a: Accumulated)
        ensures
            a.perceived.values@.len() == 0,
            a.activation.values@.len() == 0,
            a.finalisation.values@.len() == 0,
            a.insertion.values@.len() == 0,
            a.first_partial.values@.len() == 0,
    {
        Accumulated {
            perceived: Samples::new(),
            activation: Samples::new(),
            finalisation: Samples::new(),
            insertion: Samples::new(),
            first_partial: Samples::new(),
        }
    }

    /// Takes in one dictation. One without a live hypothesis counts for every
    /// span but that.
    pub fn record(&mut self, u: &Utterance)
        ensures
            final(self).perceived.values@ == old(self).perceived.values@.push(
                (u.t12_inserted - u.t7_hotkey_up) as i128,
            ),
            final(self).activation.values@ == old(self).activation.values@.push(
                (u.t1_first_packet - u.t0_hotkey_down) as i128,
            ),
            final(self).finalisation.values@ == old(self).finalisation.values@.push(
                (u.t9_final_ready - u.t7_hotkey_up) as i128,
            ),
            final(self).insertion.values@ == old(self).insertion.values@.push(
                (u.t12_inserted - u.t9_final_ready) as i128,
            ),
            final(self).first_partial.values@ == (if u.t6_first_partial == 0 {
                old(self).first_partial.values@
            } else {
                old(self).first_partial.values@.push(
                    (u.t6_first_partial - u.t0_hotkey_down) as i128,
                )
            }),
    {
        self.perceived.push(u.user_perceived());
        self.activation.push(u.activation());
        self.finalisation.push(u.finalisation());
        self.insertion.push(u.insertion());
        if let Some(d) = u.first_partial() {
            self.first_partial.push(d);
        }
    }
}

/// The figures of a report as they are written out.
pub struct ReportShown {
    pub perceived: Option<Shown>,
    pub finalisation: Option<Shown>,
    pub insertion: Option<Shown>,
    pub activation: Option<Shown>,
    pub first_partial: Option<Shown>,
}

/// The report: a line for each span, or that there is nothing to report yet.
pub open spec fn report_text(r: ReportShown) -> Seq<char> {
    if r.perceived is None {
        "No dictations recorded yet."@
    } else {
        stats::report_line("KEY UP -> TEXT ON SCREEN"@, r.perceived) + "\n"@ + stats::report_line(
            "  key up -> transcript ready"@,
            r.finalisation,
        ) + "\n"@ + stats::report_line("  transcript -> inserted"@, r.insertion) + "\n"@
            + stats::report_line("hotkey -> first audio packet"@, r.activation) + "\n"@
            + stats::report_line("hotkey -> first partial"@, r.first_partial)
    }
}

/// The report behind the tray menu item.
pub fn report(r: &ReportShown) -> (s: String)
    ensures
        s@ == report_text(*r),
{
    if r.perceived.is_none() {
        return "No dictations recorded yet.".to_owned();
    }
    let mut s: String = report_of("KEY UP -> TEXT ON SCREEN", &r.perceived);
    push_str(&mut s, "\n");
    push_str(&mut s, report_of("  key up -> transcript ready", &r.finalisation).as_str());
    push_str(&mut s, "\n");
    push_str(&mut s, report_of("  transcript -> inserted", &r.insertion).as_str());
    push_str(&mut s, "\n");
    push_str(&mut s, report_of("hotkey -> first audio packet", &r.activation).as_str());
    push_str(&mut s, "\n");
    push_str(&mut s, report_of("hotkey -> first partial", &r.first_partial).as_str());
    s
}

} // verus!
