//! A paste from beginning to end: keep what the clipboard holds, put the text there,
//! send the chord, wait until the target has serviced it, and put back what was kept.
//!
//! A paste is a machine. In each phase it asks for one thing; what came of it is the
//! next answer.

use vstd::prelude::*;
use crate::asr;
use crate::asr_service;
use crate::inject;
use crate::inject::{clipboard_units, held_modifiers, paste_strokes, Stroke};
use crate::utf16;

verus! {

/// The formats that mark what is pasted as none of the clipboard history's
/// business, nor of a clipboard that is shared over a network.
pub const PRIVATE_FORMATS: [&'static str; 3] = [
    "CanIncludeInClipboardHistory",
    "CanUploadToCloudClipboard",
    "ExcludeClipboardContentFromMonitorProcessing",
];

/// How long the target has to service the paste before the clipboard changes
/// under it.
pub const RESTORE_DELAY_MS: u64 = 150;

// ---- what goes on the clipboard -------------------------------------------------------

pub enum Format {
    /// Text in units of two bytes.
    Text,
    /// A format that is registered under a name.
    Named(&'static str),
}

/// Something on the clipboard.
pub struct Entry {
    pub format: Format,
    pub units: Vec<u16>,
}

pub enum FormatView {
    Text,
    Named(Seq<char>),
}

pub struct EntryView {
    pub format: FormatView,
    pub units: Seq<u16>,
}

impl View for Entry {
    type V = EntryView;

    open spec fn view(&self) -> EntryView {
        EntryView {
            format: match self.format {
                Format::Text => FormatView::Text,
                Format::Named(name) => FormatView::Named(name@),
            },
            units: self.units@,
        }
    }
}

/// The views of a list of entries.
pub open spec fn entry_views(v: Seq<Entry>) -> Seq<EntryView> {
    v.map_values(|e: Entry| e@)
}

/// A mark under a name: a zero of four bytes.
pub open spec fn mark(name: Seq<char>) -> EntryView {
    EntryView { format: FormatView::Named(name), units: seq![0, 0] }
}

/// A text as an entry: its units and a zero.
pub open spec fn text_entry(text: Seq<char>) -> EntryView {
    EntryView { format: FormatView::Text, units: utf16::encoded(text).push(0) }
}

/// All that goes on the clipboard for a text. What was dictated is private: the three
/// marks go with it. What the user had there goes back without them.
pub open spec fn entries(text: Seq<char>, private: bool) -> Seq<EntryView> {
    if private {
        seq![
            text_entry(text),
            mark("CanIncludeInClipboardHistory"@),
            mark("CanUploadToCloudClipboard"@),
            mark("ExcludeClipboardContentFromMonitorProcessing"@),
        ]
    } else {
        seq![text_entry(text)]
    }
}

fn push_mark(out: &mut Vec<Entry>, name: &'static str)
    ensures
        entry_views(final(out)@) == entry_views(old(out)@).push(mark(name@)),
{
    let mut units: Vec<u16> = Vec::new();
    units.push(0);
    units.push(0);
    assert(units@ =~= seq![0, 0]);
    out.push(Entry { format: Format::Named(name), units });
    assert(entry_views(out@) =~= entry_views(old(out)@).push(mark(name@)));
}

/// All that goes on the clipboard for a text.
pub fn clipboard_entries(text: &str, private: bool) -> (out: Vec<Entry>)
    ensures
        entry_views(out@) == entries(text@, private),
{
    let mut out: Vec<Entry> = Vec::new();
    out.push(Entry { format: Format::Text, units: clipboard_units(text) });
    assert(entry_views(out@) =~= seq![text_entry(text@)]);
    if private {
        push_mark(&mut out, PRIVATE_FORMATS[0]);
        push_mark(&mut out, PRIVATE_FORMATS[1]);
        push_mark(&mut out, PRIVATE_FORMATS[2]);
        assert(entry_views(out@) =~= entries(text@, true));
    }
    out
}

// ---- the machine ------------------------------------------------------------------------

/// What a paste asks for.
pub enum Ask {
    /// Read the text that the clipboard holds.
    Read,
    /// Empty the clipboard and put this text there. Where a clipboard holds several
    /// formats, all the entries go there.
    Write { text: String, entries: Vec<Entry> },
    /// Read the state of each modifier.
    Look,
    /// Send these strokes.
    Send(Vec<Stroke>),
    /// Wait for so many milliseconds. Nobody need wait along: the text is there.
    Pause(u64),
    /// Empty the clipboard.
    Empty,
    End,
}

/// What came of it.
pub enum Answer {
    Holds(Option<String>),
    Wrote(Result<(), String>),
    States([i16; 4]),
    Sent(Result<(), String>),
    Rested,
}

/// Where a paste is: what it is waiting for.
#[derive(Clone, Copy, PartialEq, Eq, Debug, Structural)]
pub enum Stage {
    Saving,
    Writing,
    Looking,
    Sending,
    Resting,
    Restoring,
    Over,
}

/// A paste under way.
pub struct Paste {
    pub text: String,
    /// What the clipboard held.
    pub saved: Option<String>,
    /// The modifiers that are down.
    pub held: Vec<u16>,
    pub stage: Stage,
}

pub enum AskView {
    Read,
    Write { text: Seq<char>, entries: Seq<EntryView> },
    Look,
    Send(Seq<Stroke>),
    Pause(u64),
    Empty,
    End,
}

impl View for Ask {
    type V = AskView;

    open spec fn view(&self) -> AskView {
        match *self {
            Ask::Read => AskView::Read,
            Ask::Write { text, entries } => AskView::Write {
                text: text@,
                entries: entry_views(entries@),
            },
            Ask::Look => AskView::Look,
            Ask::Send(s) => AskView::Send(s@),
            Ask::Pause(ms) => AskView::Pause(ms),
            Ask::Empty => AskView::Empty,
            Ask::End => AskView::End,
        }
    }
}

pub enum AnswerView {
    Holds(Option<Seq<char>>),
    /// The error, if it failed.
    Wrote(Option<Seq<char>>),
    States(Seq<i16>),
    /// The error, if it failed.
    Sent(Option<Seq<char>>),
    Rested,
}

impl View for Answer {
    type V = AnswerView;

    open spec fn view(&self) -> AnswerView {
        match *self {
            Answer::Holds(t) => AnswerView::Holds(asr::opt(t)),
            Answer::Wrote(r) => AnswerView::Wrote(asr_service::failure(r)),
            Answer::States(s) => AnswerView::States(s@),
            Answer::Sent(r) => AnswerView::Sent(asr_service::failure(r)),
            Answer::Rested => AnswerView::Rested,
        }
    }
}

pub struct PasteView {
    pub text: Seq<char>,
    pub saved: Option<Seq<char>>,
    pub held: Seq<u16>,
    pub stage: Stage,
}

impl View for Paste {
    type V = PasteView;

    open spec fn view(&self) -> PasteView {
        PasteView {
            text: self.text@,
            saved: asr::opt(self.saved),
            held: self.held@,
            stage: self.stage,
        }
    }
}

/// A paste that has not begun.
pub open spec fn unbegun(text: Seq<char>) -> PasteView {
    PasteView { text, saved: None, held: seq![], stage: Stage::Saving }
}

/// To put a text on the clipboard.
pub open spec fn writing(text: Seq<char>, private: bool) -> AskView {
    AskView::Write { text, entries: entries(text, private) }
}

/// What a paste asks for. In the end the text that the clipboard held is put back; where
/// it held none the clipboard is left cleared.
pub open spec fn wants(p: PasteView) -> AskView {
    match p.stage {
        Stage::Saving => AskView::Read,
        Stage::Writing => writing(p.text, true),
        Stage::Looking => AskView::Look,
        Stage::Sending => AskView::Send(
            inject::strokes(p.held, true) + inject::chord() + inject::strokes(p.held, false),
        ),
        Stage::Resting => AskView::Pause(RESTORE_DELAY_MS),
        Stage::Restoring => match p.saved {
            Some(old) => writing(old, false),
            None => AskView::Empty,
        },
        Stage::Over => AskView::End,
    }
}

/// What a paste becomes, and its outcome once that is known: it is in when the chord
/// has been sent, and refused when the text could not be put on the clipboard or the chord
/// could not be sent. An answer that does not fit changes nothing.
pub open spec fn next(p: PasteView, a: AnswerView) -> (PasteView, Option<Result<(), Seq<char>>>) {
    match (p.stage, a) {
        (Stage::Saving, AnswerView::Holds(saved)) => (
            PasteView { saved, stage: Stage::Writing, ..p },
            None,
        ),
        (Stage::Writing, AnswerView::Wrote(error)) => match error {
            None => (PasteView { stage: Stage::Looking, ..p }, None),
            Some(e) => (PasteView { stage: Stage::Over, ..p }, Some(Err(e))),
        },
        (Stage::Looking, AnswerView::States(states)) => (
            PasteView {
                held: inject::down_of(inject::MODIFIERS@, states),
                stage: Stage::Sending,
                ..p
            },
            None,
        ),
        (Stage::Sending, AnswerView::Sent(error)) => match error {
            None => (PasteView { stage: Stage::Resting, ..p }, Some(Ok(()))),
            Some(e) => (PasteView { stage: Stage::Over, ..p }, Some(Err(e))),
        },
        (Stage::Resting, AnswerView::Rested) => (
            PasteView { stage: Stage::Restoring, ..p },
            None,
        ),
        (Stage::Restoring, AnswerView::Wrote(_)) => (
            PasteView { stage: Stage::Over, ..p },
            None,
        ),
        _ => (p, None),
    }
}

/// An outcome with its error as a sequence of characters.
pub open spec fn outcome_view(r: Option<Result<(), String>>) -> Option<Result<(), Seq<char>>> {
    match r {
        Some(Ok(_)) => Some(Ok(())),
        Some(Err(e)) => Some(Err(e@)),
        None => None,
    }
}

impl Paste {
    /// A paste that has not begun.
    pub fn new(text: &str) -> (p: Paste)
        ensures
            p@ == unbegun(text@),
    {
        let held: Vec<u16> = Vec::new();
        assert(held@ =~= seq![]);
        Paste { text: text.to_owned(), saved: None, held, stage: Stage::Saving }
    }

    /// What is to be done now.
    pub fn ask(&self) -> (a: Ask)
        ensures
            a@ == wants(self@),
    {
        match self.stage {
            Stage::Saving => Ask::Read,
            Stage::Writing => Ask::Write {
                text: self.text.clone(),
                entries: clipboard_entries(self.text.as_str(), true),
            },
            Stage::Looking => Ask::Look,
            Stage::Sending => Ask::Send(paste_strokes(self.held.as_slice())),
            Stage::Resting => Ask::Pause(RESTORE_DELAY_MS),
            Stage::Restoring => match &self.saved {
                Some(old) => Ask::Write {
                    text: old.clone(),
                    entries: clipboard_entries(old.as_str(), false),
                },
                None => Ask::Empty,
            },
            Stage::Over => Ask::End,
        }
    }

    /// Takes in what came of it. Says how the paste went as soon as that is known.
    pub fn answer(&mut self, a: Answer) -> (r: Option<Result<(), String>>)
        ensures
            (final(self)@, outcome_view(r)) == next(old(self)@, a@),
    {
        match (self.stage, a) {
            (Stage::Saving, Answer::Holds(saved)) => {
                self.saved = saved;
                self.stage = Stage::Writing;
                None
            },
            (Stage::Writing, Answer::Wrote(w)) => match w {
                Ok(_) => {
                    self.stage = Stage::Looking;
                    None
                },
                Err(e) => {
                    self.stage = Stage::Over;
                    Some(Err(e))
                },
            },
            (Stage::Looking, Answer::States(states)) => {
                self.held = held_modifiers(states);
                self.stage = Stage::Sending;
                None
            },
            (Stage::Sending, Answer::Sent(w)) => match w {
                Ok(_) => {
                    self.stage = Stage::Resting;
                    Some(Ok(()))
                },
                Err(e) => {
                    self.stage = Stage::Over;
                    Some(Err(e))
                },
            },
            (Stage::Resting, Answer::Rested) => {
                self.stage = Stage::Restoring;
                None
            },
            (Stage::Restoring, Answer::Wrote(_)) => {
                self.stage = Stage::Over;
                None
            },
            _ => None,
        }
    }
}

// ---- laws -----------------------------------------------------------------------------

/// A paste after a list of answers.
pub open spec fn after(p: PasteView, answers: Seq<AnswerView>) -> PasteView
    decreases answers.len(),
{
    if answers.len() == 0 {
        p
    } else {
        next(after(p, answers.drop_last()), answers.last()).0
    }
}

/// A paste goes from end to end like this: the text goes on the clipboard marked as
/// private, the chord goes out with the held modifiers lifted around it, the paste is
/// then said to be in, and after the pause the clipboard holds again what it held, free
/// of marks, or nothing where it held no text.
pub proof fn law_paste_from_end_to_end(
    text: Seq<char>,
    saved: Option<Seq<char>>,
    states: Seq<i16>,
    last: Option<Seq<char>>,
)
    ensures
        ({
            let held = inject::down_of(inject::MODIFIERS@, states);
            let p0 = unbegun(text);
            let (p1, r1) = next(p0, AnswerView::Holds(saved));
            let (p2, r2) = next(p1, AnswerView::Wrote(None));
            let (p3, r3) = next(p2, AnswerView::States(states));
            let (p4, r4) = next(p3, AnswerView::Sent(None));
            let (p5, r5) = next(p4, AnswerView::Rested);
            let (p6, r6) = next(p5, AnswerView::Wrote(last));
            &&& wants(p0) == AskView::Read
            &&& wants(p1) == writing(text, true)
            &&& wants(p2) == AskView::Look
            &&& wants(p3) == AskView::Send(
                inject::strokes(held, true) + inject::chord() + inject::strokes(held, false),
            )
            &&& wants(p4) == AskView::Pause(RESTORE_DELAY_MS)
            &&& wants(p5) == match saved {
                Some(old) => writing(old, false),
                None => AskView::Empty,
            }
            &&& wants(p6) == AskView::End
            &&& r1 is None && r2 is None && r3 is None && r4 == Some(Ok::<(), Seq<char>>(()))
                && r5 is None && r6 is None
        }),
{
}

/// Where the text cannot be put on the clipboard the paste is refused for that reason,
/// and no key is touched.
pub proof fn law_refused_paste_sends_nothing(
    text: Seq<char>,
    saved: Option<Seq<char>>,
    error: Seq<char>,
    more: Seq<AnswerView>,
)
    ensures
        ({
            let (p, r) = next(
                next(unbegun(text), AnswerView::Holds(saved)).0,
                AnswerView::Wrote(Some(error)),
            );
            &&& r == Some(Err::<(), Seq<char>>(error))
            &&& wants(after(p, more)) == AskView::End
        }),
    decreases more.len(),
{
    if more.len() > 0 {
        law_refused_paste_sends_nothing(text, saved, error, more.drop_last());
    }
}

/// Whatever the answers are, two things can come to stand on the clipboard: what was
/// dictated, with all its marks, and what the clipboard was said to have held, with none.
/// No key is sent before the text has been put there.
pub proof fn law_dictation_is_always_marked(text: Seq<char>, answers: Seq<AnswerView>)
    ensures
        wants(after(unbegun(text), answers)) is Write ==> {
            ||| wants(after(unbegun(text), answers)) == writing(text, true)
            ||| exists|old: Seq<char>|
                #[trigger] answers.contains(AnswerView::Holds(Some(old))) && wants(
                    after(unbegun(text), answers),
                ) == writing(old, false)
        },
        wants(after(unbegun(text), answers)) is Send ==> answers.contains(
            AnswerView::Wrote(None),
        ),
{
    lemma_paste_run(text, answers);
}

proof fn lemma_paste_run(text: Seq<char>, answers: Seq<AnswerView>)
    ensures
        ({
            let p = after(unbegun(text), answers);
            &&& p.text == text
            &&& p.saved matches Some(old) ==> answers.contains(AnswerView::Holds(Some(old)))
            &&& p.stage == Stage::Saving || p.stage == Stage::Writing || p.stage == Stage::Over
                || answers.contains(AnswerView::Wrote(None))
        }),
    decreases answers.len(),
{
    if answers.len() > 0 {
        lemma_paste_run(text, answers.drop_last());
        let before = after(unbegun(text), answers.drop_last());
        assert(answers.contains(answers.last())) by {
            assert(answers[answers.len() - 1] == answers.last());
        }
        assert forall|a: AnswerView| answers.drop_last().contains(a) implies answers.contains(a) by {
            let i = answers.drop_last().index_of(a);
            assert(answers[i] == a);
        }
    }
}

} // verus!
