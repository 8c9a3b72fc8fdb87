//! The recogniser's worker: one command at a time, one utterance at a time.
//!
//! Two rules decide how long the user waits after letting go. The recogniser is
//! kept caught up while the user is still speaking; and no partial is begun
//! once the key is up, because a call that runs cannot be cancelled.
//!
//! The worker is a machine. In each phase it asks for one action; what came of
//! the action is the next input. Times are nanoseconds on one monotonic clock.

use vstd::prelude::*;
use crate::asr;
use crate::asr::{join, Line};
pub use crate::audio_sink::AudioSink;
use crate::chars;
use crate::chars::push_str;

verus! {

/// The timing knobs.
#[derive(Clone, Copy, PartialEq, Eq, Debug, Structural)]
pub struct Config {
    /// Least gap between two partials.
    pub partial_cadence_ms: u64,
    /// Whether a partial bypasses the recogniser's own throttle.
    pub force_partials: bool,
    /// How long to keep collecting after the key is up, so that the last packet
    /// of the device is not clipped.
    pub release_tail_ms: u64,
}

impl Default for Config {
    fn default() -> (c: Config)
        ensures
            c == (Config {
                partial_cadence_ms: 250,
                force_partials: false,
                release_tail_ms: 15,
            }),
    {
        Config { partial_cadence_ms: 250, force_partials: false, release_tail_ms: 15 }
    }
}

/// What the worker reports. What was heard carries the number that its utterance was
/// begun with.
#[derive(Clone, Debug)]
pub enum Event {
    /// Live hypothesis while the user speaks.
    Partial { utterance: u64, text: String },
    /// The utterance is finished. `wait_for_inflight` is how long the release
    /// waited for a call that was already running, `drain` the time from there
    /// to the transcript, `total` the time from the release to it.
    Final {
        utterance: u64,
        text: String,
        lines: Vec<Line>,
        wait_for_inflight: u64,
        drain: u64,
        total: u64,
    },
    Error(String),
}

/// What the worker is told.
pub enum Cmd {
    /// Begin the utterance with this number. One that is under way is dropped. What
    /// waits for the end of an utterance is applied first.
    Begin(u64),
    Release,
    /// Drop the utterance under way.
    Cancel,
    SetKeyterms(String),
    SetConfig(Config),
    Shutdown,
}

/// What came of an action.
pub enum Input {
    /// A command was waiting.
    Command(Cmd),
    /// No command was waiting.
    Quiet,
    /// Nobody is left to send commands.
    Disconnected,
    Biased(Result<(), String>),
    Created(Result<(), String>),
    Started(Result<(), String>),
    /// What was captured has been handed to the stream.
    Drained { error: Option<String>, now: u64 },
    /// Whether the key is already up.
    ReleasePending(bool),
    Heard { lines: Result<Vec<Line>, String>, now: u64 },
    Rested,
    /// When the key came up, where that was recorded.
    Released { at: Option<u64>, now: u64 },
    Cleared,
}

/// What is to be done next.
pub enum Action {
    /// Block until a command comes.
    Receive,
    /// Bias the decoder towards these terms.
    SetKeyterms(String),
    CreateStream,
    StartStream,
    /// Hand what was captured to the stream.
    Drain,
    /// Look whether the key is already up.
    CheckRelease,
    /// Take a command if one is waiting.
    Poll,
    /// Run the recogniser on what it has. Cannot be cancelled.
    Transcribe { force: bool },
    /// Sleep for two milliseconds.
    Rest,
    /// Read when the key came up.
    ReadRelease,
    /// Sleep for so many nanoseconds.
    WaitFor(u128),
    /// End the input and transcribe what is left.
    Finish,
    /// Note that the release has been dealt with.
    ClearRelease,
    Exit,
}

/// Where the worker is: the action it is waiting for.
#[derive(Clone, Copy, PartialEq, Eq, Debug, Structural)]
pub enum Phase {
    Idle,
    Biasing,
    Creating,
    Starting,
    /// Handing over what came in before the stream was there.
    Priming,
    Looking,
    Polling,
    Feeding,
    /// Looking once more before a call that cannot be cancelled.
    Deciding,
    Hearing,
    Resting,
    Releasing,
    Catching { released: u64, waited: u64, from: u64 },
    Waiting { released: u64, waited: u64, from: u64, sleep: u128 },
    Topping { released: u64, waited: u64, from: u64 },
    Finishing { released: u64, waited: u64, from: u64 },
    Clearing,
    Ended,
}

// ---- the same in mathematics -------------------------------------------------

pub enum EventView {
    Partial { utterance: u64, text: Seq<char> },
    Final {
        utterance: u64,
        text: Seq<char>,
        lines: Seq<Line>,
        wait_for_inflight: int,
        drain: int,
        total: int,
    },
    Error(Seq<char>),
}

impl View for Event {
    type V = EventView;

    open spec fn view(&self) -> EventView {
        match *self {
            Event::Partial { utterance, text } => EventView::Partial { utterance, text: text@ },
            Event::Final {
                utterance,
                text,
                lines,
                wait_for_inflight,
                drain,
                total,
            } => EventView::Final {
                utterance,
                text: text@,
                lines: lines@,
                wait_for_inflight: wait_for_inflight as int,
                drain: drain as int,
                total: total as int,
            },
            Event::Error(e) => EventView::Error(e@),
        }
    }
}

/// The views of a list of events.
pub open spec fn event_views(v: Seq<Event>) -> Seq<EventView> {
    v.map_values(|e: Event| e@)
}

pub enum CmdView {
    Begin(u64),
    Release,
    Cancel,
    SetKeyterms(Seq<char>),
    SetConfig(Config),
    Shutdown,
}

impl View for Cmd {
    type V = CmdView;

    open spec fn view(&self) -> CmdView {
        match *self {
            Cmd::Begin(n) => CmdView::Begin(n),
            Cmd::Release => CmdView::Release,
            Cmd::Cancel => CmdView::Cancel,
            Cmd::SetKeyterms(t) => CmdView::SetKeyterms(t@),
            Cmd::SetConfig(c) => CmdView::SetConfig(c),
            Cmd::Shutdown => CmdView::Shutdown,
        }
    }
}

pub enum InputView {
    Command(CmdView),
    Quiet,
    Disconnected,
    /// The error of a call, if it failed.
    Biased(Option<Seq<char>>),
    Created(Option<Seq<char>>),
    Started(Option<Seq<char>>),
    Drained { error: Option<Seq<char>>, now: int },
    ReleasePending(bool),
    Heard { lines: Result<Seq<Line>, Seq<char>>, now: int },
    Rested,
    Released { at: Option<int>, now: int },
    Cleared,
}

/// The error of a result, if it has one.
pub open spec fn failure(r: Result<(), String>) -> Option<Seq<char>> {
    match r {
        Ok(_) => None,
        Err(e) => Some(e@),
    }
}

impl View for Input {
    type V = InputView;

    open spec fn view(&self) -> InputView {
        match *self {
            Input::Command(c) => InputView::Command(c@),
            Input::Quiet => InputView::Quiet,
            Input::Disconnected => InputView::Disconnected,
            Input::Biased(r) => InputView::Biased(failure(r)),
            Input::Created(r) => InputView::Created(failure(r)),
            Input::Started(r) => InputView::Started(failure(r)),
            Input::Drained { error, now } => InputView::Drained {
                error: asr::opt(error),
                now: now as int,
            },
            Input::ReleasePending(b) => InputView::ReleasePending(b),
            Input::Heard { lines, now } => InputView::Heard {
                lines: match lines {
                    Ok(l) => Ok(l@),
                    Err(e) => Err(e@),
                },
                now: now as int,
            },
            Input::Rested => InputView::Rested,
            Input::Released { at, now } => InputView::Released {
                at: match at {
                    Some(t) => Some(t as int),
                    None => None,
                },
                now: now as int,
            },
            Input::Cleared => InputView::Cleared,
        }
    }
}

pub enum ActionView {
    Receive,
    SetKeyterms(Seq<char>),
    CreateStream,
    StartStream,
    Drain,
    CheckRelease,
    Poll,
    Transcribe { force: bool },
    Rest,
    ReadRelease,
    WaitFor(int),
    Finish,
    ClearRelease,
    Exit,
}

impl View for Action {
    type V = ActionView;

    open spec fn view(&self) -> ActionView {
        match *self {
            Action::Receive => ActionView::Receive,
            Action::SetKeyterms(t) => ActionView::SetKeyterms(t@),
            Action::CreateStream => ActionView::CreateStream,
            Action::StartStream => ActionView::StartStream,
            Action::Drain => ActionView::Drain,
            Action::CheckRelease => ActionView::CheckRelease,
            Action::Poll => ActionView::Poll,
            Action::Transcribe { force } => ActionView::Transcribe { force },
            Action::Rest => ActionView::Rest,
            Action::ReadRelease => ActionView::ReadRelease,
            Action::WaitFor(ns) => ActionView::WaitFor(ns as int),
            Action::Finish => ActionView::Finish,
            Action::ClearRelease => ActionView::ClearRelease,
            Action::Exit => ActionView::Exit,
        }
    }
}

pub struct WorkerView {
    pub config: Config,
    /// A change of the knobs that came during an utterance.
    pub waiting_config: Option<Config>,
    /// Terms that have yet to be set, in the order in which they came.
    pub waiting_terms: Seq<Seq<char>>,
    /// When the last partial was done, if there was one in this utterance.
    pub last_partial: Option<int>,
    /// The number of the utterance that was begun last.
    pub number: u64,
    /// Whether that utterance is still to be begun, once what waits has been applied.
    pub beginning: bool,
    pub phase: Phase,
}

/// How long ago something was, never less than nothing.
pub open spec fn since(then: int, now: int) -> int {
    if now >= then {
        now - then
    } else {
        0
    }
}

/// Whether a partial is due.
pub open spec fn due(w: WorkerView, now: int) -> bool {
    match w.last_partial {
        None => true,
        Some(last) => since(last, now) >= w.config.partial_cadence_ms * 1_000_000,
    }
}

/// The worker in another phase.
pub open spec fn at(w: WorkerView, phase: Phase) -> WorkerView {
    WorkerView { phase, ..w }
}

/// The worker between two utterances. Knobs that wait are taken, then terms that wait
/// are set, and only then is the next utterance begun, if there is one.
pub open spec fn between(w: WorkerView) -> WorkerView {
    let taken = WorkerView {
        config: match w.waiting_config {
            Some(c) => c,
            None => w.config,
        },
        waiting_config: None,
        ..w
    };
    if w.waiting_terms.len() > 0 {
        at(taken, Phase::Biasing)
    } else if w.beginning {
        WorkerView { phase: Phase::Creating, beginning: false, ..taken }
    } else {
        at(taken, Phase::Idle)
    }
}

/// The worker when it is told to begin an utterance.
pub open spec fn begun(w: WorkerView, number: u64) -> WorkerView {
    between(WorkerView { number, beginning: true, ..w })
}

/// A worker that waits for its first command.
pub open spec fn fresh(config: Config) -> WorkerView {
    WorkerView {
        config,
        waiting_config: None,
        waiting_terms: seq![],
        last_partial: None,
        number: 0,
        beginning: false,
        phase: Phase::Idle,
    }
}

/// The error event for a failed call, if it failed.
pub open spec fn reported(error: Option<Seq<char>>) -> Seq<EventView> {
    match error {
        Some(e) => seq![EventView::Error(e)],
        None => seq![],
    }
}

/// The worker when the key has come up at `released`.
pub open spec fn caught(w: WorkerView, at_time: Option<int>, now: int) -> WorkerView {
    let released = match at_time {
        Some(t) => t,
        None => now,
    };
    at(
        w,
        Phase::Catching {
            released: released as u64,
            waited: since(released, now) as u64,
            from: now as u64,
        },
    )
}

/// How long the tail after a release still is.
pub open spec fn tail_left(w: WorkerView, released: int, now: int) -> int {
    released + w.config.release_tail_ms * 1_000_000 - now
}

/// What the worker asks for.
pub open spec fn wants(w: WorkerView) -> ActionView {
    match w.phase {
        Phase::Idle => ActionView::Receive,
        Phase::Biasing => if w.waiting_terms.len() > 0 {
            ActionView::SetKeyterms(w.waiting_terms[0])
        } else {
            ActionView::Receive
        },
        Phase::Creating => ActionView::CreateStream,
        Phase::Starting => ActionView::StartStream,
        Phase::Priming => ActionView::Drain,
        Phase::Looking => ActionView::CheckRelease,
        Phase::Polling => ActionView::Poll,
        Phase::Feeding => ActionView::Drain,
        Phase::Deciding => ActionView::CheckRelease,
        Phase::Hearing => ActionView::Transcribe { force: w.config.force_partials },
        Phase::Resting => ActionView::Rest,
        Phase::Releasing => ActionView::ReadRelease,
        Phase::Catching { .. } => ActionView::Drain,
        Phase::Waiting { sleep, .. } => ActionView::WaitFor(sleep as int),
        Phase::Topping { .. } => ActionView::Drain,
        Phase::Finishing { .. } => ActionView::Finish,
        Phase::Clearing => ActionView::ClearRelease,
        Phase::Ended => ActionView::Exit,
    }
}

/// What the worker becomes and what it reports. An input that does not answer
/// the action it asked for changes nothing.
pub open spec fn next(w: WorkerView, i: InputView) -> (WorkerView, Seq<EventView>) {
    match (w.phase, i) {
        (Phase::Idle, InputView::Command(c)) => match c {
            CmdView::Begin(n) => (begun(w, n), seq![]),
            CmdView::Release => (w, seq![]),
            CmdView::Cancel => (w, seq![]),
            CmdView::SetKeyterms(t) => (
                between(WorkerView { waiting_terms: w.waiting_terms.push(t), ..w }),
                seq![],
            ),
            CmdView::SetConfig(c) => (
                WorkerView { config: c, waiting_config: None, ..w },
                seq![],
            ),
            CmdView::Shutdown => (at(w, Phase::Ended), seq![]),
        },
        (Phase::Idle, InputView::Disconnected) => (at(w, Phase::Ended), seq![]),
        (Phase::Biasing, InputView::Biased(error)) => (
            between(
                WorkerView {
                    waiting_terms: if w.waiting_terms.len() > 0 {
                        w.waiting_terms.drop_first()
                    } else {
                        w.waiting_terms
                    },
                    ..w
                },
            ),
            match error {
                Some(e) => seq![EventView::Error("keyterms rejected: "@ + e)],
                None => seq![],
            },
        ),
        (Phase::Creating, InputView::Created(error)) => (
            match error {
                Some(_) => between(w),
                None => at(w, Phase::Starting),
            },
            reported(error),
        ),
        (Phase::Starting, InputView::Started(error)) => (
            match error {
                Some(_) => between(w),
                None => WorkerView { phase: Phase::Priming, last_partial: None, ..w },
            },
            reported(error),
        ),
        (Phase::Priming, InputView::Drained { error, .. }) => (
            at(w, Phase::Looking),
            reported(error),
        ),
        (Phase::Looking, InputView::ReleasePending(up)) => (
            at(
                w,
                if up {
                    Phase::Releasing
                } else {
                    Phase::Polling
                },
            ),
            seq![],
        ),
        (Phase::Polling, InputView::Command(c)) => match c {
            CmdView::Begin(n) => (begun(w, n), seq![]),
            CmdView::Release => (at(w, Phase::Releasing), seq![]),
            CmdView::Cancel => (at(w, Phase::Clearing), seq![]),
            CmdView::SetKeyterms(t) => (
                WorkerView {
                    phase: Phase::Feeding,
                    waiting_terms: w.waiting_terms.push(t),
                    ..w
                },
                seq![],
            ),
            CmdView::SetConfig(c) => (
                WorkerView { phase: Phase::Feeding, waiting_config: Some(c), ..w },
                seq![],
            ),
            CmdView::Shutdown => (at(w, Phase::Ended), seq![]),
        },
        (Phase::Polling, InputView::Quiet) => (at(w, Phase::Feeding), seq![]),
        (Phase::Polling, InputView::Disconnected) => (at(w, Phase::Feeding), seq![]),
        (Phase::Feeding, InputView::Drained { error, now }) => (
            at(
                w,
                if due(w, now) {
                    Phase::Deciding
                } else {
                    Phase::Resting
                },
            ),
            reported(error),
        ),
        (Phase::Deciding, InputView::ReleasePending(up)) => (
            at(
                w,
                if up {
                    Phase::Releasing
                } else {
                    Phase::Hearing
                },
            ),
            seq![],
        ),
        (Phase::Hearing, InputView::Heard { lines, now }) => (
            WorkerView { phase: Phase::Looking, last_partial: Some(now), ..w },
            match lines {
                Ok(l) => if asr::transcript(asr::line_texts(l)).len() > 0 {
                    seq![
                        EventView::Partial {
                            utterance: w.number,
                            text: asr::transcript(asr::line_texts(l)),
                        },
                    ]
                } else {
                    seq![]
                },
                Err(e) => seq![EventView::Error(e)],
            },
        ),
        (Phase::Resting, InputView::Rested) => (at(w, Phase::Looking), seq![]),
        (Phase::Releasing, InputView::Released { at: at_time, now }) => (
            caught(w, at_time, now),
            seq![],
        ),
        (Phase::Catching { released, waited, from }, InputView::Drained { error, now }) => (
            at(
                w,
                if tail_left(w, released as int, now) > 0 {
                    Phase::Waiting {
                        released,
                        waited,
                        from,
                        sleep: tail_left(w, released as int, now) as u128,
                    }
                } else {
                    Phase::Finishing { released, waited, from }
                },
            ),
            reported(error),
        ),
        (Phase::Waiting { released, waited, from, .. }, InputView::Rested) => (
            at(w, Phase::Topping { released, waited, from }),
            seq![],
        ),
        (Phase::Topping { released, waited, from }, InputView::Drained { error, .. }) => (
            at(w, Phase::Finishing { released, waited, from }),
            reported(error),
        ),
        (Phase::Finishing { released, waited, from }, InputView::Heard { lines, now }) => (
            at(w, Phase::Clearing),
            match lines {
                Ok(l) => seq![
                    finished(w.number, l, released as int, waited as int, from as int, now),
                ],
                Err(e) => seq![
                    EventView::Error(e),
                    finished(w.number, seq![], released as int, waited as int, from as int, now),
                ],
            },
        ),
        (Phase::Clearing, InputView::Cleared) => (
            between(w),
            seq![],
        ),
        _ => (w, seq![]),
    }
}

/// The event that ends an utterance.
pub open spec fn finished(
    utterance: u64,
    lines: Seq<Line>,
    released: int,
    waited: int,
    from: int,
    now: int,
) -> EventView {
    EventView::Final {
        utterance,
        text: asr::transcript(asr::line_texts(lines)),
        lines,
        wait_for_inflight: waited,
        drain: since(from, now),
        total: since(released, now),
    }
}

// ---- the machine --------------------------------------------------------------

pub struct Worker {
    pub config: Config,
    pub waiting_config: Option<Config>,
    pub waiting_terms: Vec<String>,
    pub last_partial: Option<u64>,
    pub number: u64,
    pub beginning: bool,
    pub phase: Phase,
}

impl View for Worker {
    type V = WorkerView;

    open spec fn view(&self) -> WorkerView {
        WorkerView {
            config: self.config,
            waiting_config: self.waiting_config,
            waiting_terms: chars::texts(self.waiting_terms@),
            last_partial: match self.last_partial {
                Some(t) => Some(t as int),
                None => None,
            },
            number: self.number,
            beginning: self.beginning,
            phase: self.phase,
        }
    }
}

/// How long ago something was, never less than nothing.
fn elapsed(then: u64, now: u64) -> (d: u64)
    ensures
        d == since(then as int, now as int),
{
    if now >= then {
        now - then
    } else {
        0
    }
}

/// The events for a failed call, if it failed.
fn report(error: Option<String>) -> (out: Vec<Event>)
    ensures
        event_views(out@) == reported(asr::opt(error)),
{
    let mut out: Vec<Event> = Vec::new();
    match error {
        Some(e) => {
            out.push(Event::Error(e));
        },
        None => {},
    }
    assert(event_views(out@) =~= reported(asr::opt(error)));
    out
}

fn no_events() -> (out: Vec<Event>)
    ensures
        event_views(out@) == Seq::<EventView>::empty(),
{
    let out: Vec<Event> = Vec::new();
    assert(event_views(out@) =~= seq![]);
    out
}

impl Event {
    /// Whether the main loop is woken for this event.
    pub fn wakes(&self) -> (r: bool)
        ensures
            r == !(self@ is Error),
    {
        match self {
            Event::Error(_) => false,
            _ => true,
        }
    }
}

impl Worker {
    /// A worker that waits for its first command.
    pub fn new(config: Config) -> (w: Worker)
        ensures
            w@ == fresh(config),
    {
        let waiting_terms: Vec<String> = Vec::new();
        assert(chars::texts(waiting_terms@) =~= seq![]);
        Worker {
            config,
            waiting_config: None,
            waiting_terms,
            last_partial: None,
            number: 0,
            beginning: false,
            phase: Phase::Idle,
        }
    }

    /// What is to be done now.
    pub fn action(&self) -> (a: Action)
        ensures
            a@ == wants(self@),
    {
        match self.phase {
            Phase::Idle => Action::Receive,
            Phase::Biasing => {
                if self.waiting_terms.len() > 0 {
                    Action::SetKeyterms(self.waiting_terms[0].clone())
                } else {
                    Action::Receive
                }
            },
            Phase::Creating => Action::CreateStream,
            Phase::Starting => Action::StartStream,
            Phase::Priming => Action::Drain,
            Phase::Looking => Action::CheckRelease,
            Phase::Polling => Action::Poll,
            Phase::Feeding => Action::Drain,
            Phase::Deciding => Action::CheckRelease,
            Phase::Hearing => Action::Transcribe { force: self.config.force_partials },
            Phase::Resting => Action::Rest,
            Phase::Releasing => Action::ReadRelease,
            Phase::Catching { .. } => Action::Drain,
            Phase::Waiting { sleep, .. } => Action::WaitFor(sleep),
            Phase::Topping { .. } => Action::Drain,
            Phase::Finishing { .. } => Action::Finish,
            Phase::Clearing => Action::ClearRelease,
            Phase::Ended => Action::Exit,
        }
    }

    /// Keeps terms for when they can be set.
    fn keep_terms(&mut self, terms: String)
        ensures
            final(self)@ == (WorkerView {
                waiting_terms: old(self)@.waiting_terms.push(terms@),
                ..old(self)@
            }),
    {
        self.waiting_terms.push(terms);
        assert(self@.waiting_terms =~= old(self)@.waiting_terms.push(terms@));
    }

    /// Goes between two utterances.
    fn go_between(&mut self)
        ensures
            final(self)@ == between(old(self)@),
    {
        match self.waiting_config {
            Some(c) => {
                self.config = c;
            },
            None => {},
        }
        self.waiting_config = None;
        if self.waiting_terms.len() > 0 {
            self.phase = Phase::Biasing;
        } else if self.beginning {
            self.beginning = false;
            self.phase = Phase::Creating;
        } else {
            self.phase = Phase::Idle;
        }
    }

    /// Begins an utterance as soon as what waits has been applied.
    fn begin(&mut self, number: u64)
        ensures
            final(self)@ == begun(old(self)@, number),
    {
        self.number = number;
        self.beginning = true;
        self.go_between();
    }

    /// Whether a partial is due.
    fn is_due(&self, now: u64) -> (r: bool)
        ensures
            r == due(self@, now as int),
    {
        match self.last_partial {
            None => true,
            Some(last) => {
                let gap: u64 = elapsed(last, now);
                gap as u128 >= self.config.partial_cadence_ms as u128 * 1_000_000
            },
        }
    }

    /// Takes in what came of the action and says what to report.
    pub fn step(&mut self, input: Input) -> (events: Vec<Event>)
        ensures
            (final(self)@, event_views(events@)) == next(old(self)@, input@),
    {
        match (self.phase, input) {
            (Phase::Idle, Input::Command(c)) => {
                match c {
                    Cmd::Begin(n) => {
                        self.begin(n);
                    },
                    Cmd::Release => {},
                    Cmd::Cancel => {},
                    Cmd::SetKeyterms(t) => {
                        self.keep_terms(t);
                        self.go_between();
                    },
                    Cmd::SetConfig(fresh) => {
                        self.config = fresh;
                        self.waiting_config = None;
                    },
                    Cmd::Shutdown => {
                        self.phase = Phase::Ended;
                    },
                }
                no_events()
            },
            (Phase::Idle, Input::Disconnected) => {
                self.phase = Phase::Ended;
                no_events()
            },
            (Phase::Biasing, Input::Biased(r)) => {
                if self.waiting_terms.len() > 0 {
                    let _ = self.waiting_terms.remove(0);
                    assert(chars::texts(self.waiting_terms@) =~= chars::texts(
                        old(self).waiting_terms@,
                    ).drop_first());
                }
                self.go_between();
                match r {
                    Ok(_) => no_events(),
                    Err(e) => {
                        let mut text: String = "keyterms rejected: ".to_owned();
                        push_str(&mut text, e.as_str());
                        report(Some(text))
                    },
                }
            },
            (Phase::Creating, Input::Created(r)) => {
                match r {
                    Ok(_) => {
                        self.phase = Phase::Starting;
                        no_events()
                    },
                    Err(e) => {
                        self.go_between();
                        report(Some(e))
                    },
                }
            },
            (Phase::Starting, Input::Started(r)) => {
                match r {
                    Ok(_) => {
                        self.phase = Phase::Priming;
                        self.last_partial = None;
                        no_events()
                    },
                    Err(e) => {
                        self.go_between();
                        report(Some(e))
                    },
                }
            },
            (Phase::Priming, Input::Drained { error, .. }) => {
                self.phase = Phase::Looking;
                report(error)
            },
            (Phase::Looking, Input::ReleasePending(up)) => {
                self.phase = if up {
                    Phase::Releasing
                } else {
                    Phase::Polling
                };
                no_events()
            },
            (Phase::Polling, Input::Command(c)) => {
                match c {
                    Cmd::Begin(n) => {
                        self.begin(n);
                    },
                    Cmd::Release => {
                        self.phase = Phase::Releasing;
                    },
                    Cmd::Cancel => {
                        self.phase = Phase::Clearing;
                    },
                    Cmd::SetKeyterms(t) => {
                        self.keep_terms(t);
                        self.phase = Phase::Feeding;
                    },
                    Cmd::SetConfig(fresh) => {
                        self.waiting_config = Some(fresh);
                        self.phase = Phase::Feeding;
                    },
                    Cmd::Shutdown => {
                        self.phase = Phase::Ended;
                    },
                }
                no_events()
            },
            (Phase::Polling, Input::Quiet) => {
                self.phase = Phase::Feeding;
                no_events()
            },
            (Phase::Polling, Input::Disconnected) => {
                self.phase = Phase::Feeding;
                no_events()
            },
            (Phase::Feeding, Input::Drained { error, now }) => {
                self.phase = if self.is_due(now) {
                    Phase::Deciding
                } else {
                    Phase::Resting
                };
                report(error)
            },
            (Phase::Deciding, Input::ReleasePending(up)) => {
                self.phase = if up {
                    Phase::Releasing
                } else {
                    Phase::Hearing
                };
                no_events()
            },
            (Phase::Hearing, Input::Heard { lines, now }) => {
                self.phase = Phase::Looking;
                self.last_partial = Some(now);
                match lines {
                    Ok(l) => {
                        let text: String = join(l.as_slice());
                        if text.as_str().is_empty() {
                            no_events()
                        } else {
                            let ghost said = text@;
                            let mut out: Vec<Event> = Vec::new();
                            out.push(Event::Partial { utterance: self.number, text });
                            assert(event_views(out@) =~= seq![
                                EventView::Partial { utterance: self.number, text: said },
                            ]);
                            out
                        }
                    },
                    Err(e) => report(Some(e)),
                }
            },
            (Phase::Resting, Input::Rested) => {
                self.phase = Phase::Looking;
                no_events()
            },
            (Phase::Releasing, Input::Released { at, now }) => {
                let released: u64 = match at {
                    Some(t) => t,
                    None => now,
                };
                self.phase = Phase::Catching {
                    released,
                    waited: elapsed(released, now),
                    from: now,
                };
                no_events()
            },
            (Phase::Catching { released, waited, from }, Input::Drained { error, now }) => {
                let deadline: u128 = released as u128 + self.config.release_tail_ms as u128
                    * 1_000_000;
                self.phase = if deadline > now as u128 {
                    Phase::Waiting { released, waited, from, sleep: deadline - now as u128 }
                } else {
                    Phase::Finishing { released, waited, from }
                };
                report(error)
            },
            (Phase::Waiting { released, waited, from, .. }, Input::Rested) => {
                self.phase = Phase::Topping { released, waited, from };
                no_events()
            },
            (Phase::Topping { released, waited, from }, Input::Drained { error, .. }) => {
                self.phase = Phase::Finishing { released, waited, from };
                report(error)
            },
            (Phase::Finishing { released, waited, from }, Input::Heard { lines, now }) => {
                self.phase = Phase::Clearing;
                let mut out: Vec<Event> = Vec::new();
                let heard: Vec<Line> = match lines {
                    Ok(l) => l,
                    Err(e) => {
                        out.push(Event::Error(e));
                        Vec::new()
                    },
                };
                let ghost all = heard@;
                let text: String = join(heard.as_slice());
                out.push(
                    Event::Final {
                        utterance: self.number,
                        text,
                        lines: heard,
                        wait_for_inflight: waited,
                        drain: elapsed(from, now),
                        total: elapsed(released, now),
                    },
                );
                proof {
                    let done = finished(
                        self.number,
                        all,
                        released as int,
                        waited as int,
                        from as int,
                        now as int,
                    );
                    match input@ {
                        InputView::Heard { lines: Ok(l), .. } => {
                            assert(event_views(out@) =~= seq![done]);
                        },
                        InputView::Heard { lines: Err(e), .. } => {
                            assert(all =~= seq![]);
                            assert(event_views(out@) =~= seq![EventView::Error(e), done]);
                        },
                        _ => {},
                    }
                }
                out
            },
            (Phase::Clearing, Input::Cleared) => {
                self.go_between();
                no_events()
            },
            _ => no_events(),
        }
    }
}

} // verus!
