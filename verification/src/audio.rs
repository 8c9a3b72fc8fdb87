//! Microphone capture: a device that is opened once, and started and stopped with
//! the hold key.
//!
//! A device that is open and stopped captures nothing, so no indicator is lit and
//! no samples exist to read. The capture is a machine: in each phase it asks for
//! one action, and what came of it is the next input.

use vstd::prelude::*;

verus! {

/// Everything downstream works at this rate, in mono.
pub const TARGET_SR: u32 = 16_000;

/// Counters to look at when something goes wrong. A rising glitch count while
/// speaking says that the pipeline is falling behind.
#[derive(Clone, Copy, PartialEq, Eq, Debug, Structural)]
pub struct CaptureStats {
    pub packets: u32,
    pub glitches: u32,
    pub device_errors: u32,
    /// What starting took the last time, in microseconds.
    pub last_start_us: u32,
    /// What throwing away what the device held took the last time.
    pub last_reset_us: u32,
}

impl Default for CaptureStats {
    fn default() -> (s: CaptureStats)
        ensures
            s == no_stats(),
    {
        CaptureStats {
            packets: 0,
            glitches: 0,
            device_errors: 0,
            last_start_us: 0,
            last_reset_us: 0,
        }
    }
}

/// Counters that have counted nothing.
pub open spec fn no_stats() -> CaptureStats {
    CaptureStats { packets: 0, glitches: 0, device_errors: 0, last_start_us: 0, last_reset_us: 0 }
}

pub const WAVE_FORMAT_IEEE_FLOAT: u16 = 3;

pub const WAVE_FORMAT_EXTENSIBLE: u16 = 0xFFFE;

/// Whether a format carries floating-point samples, in either of its spellings;
/// the longer one names the kind of its samples in a field of its own.
pub fn format_is_float(tag: u16, sub_format: u32) -> (r: bool)
    ensures
        r == (tag == WAVE_FORMAT_IEEE_FLOAT || (tag == WAVE_FORMAT_EXTENSIBLE && sub_format == 3)),
{
    tag == WAVE_FORMAT_IEEE_FLOAT || (tag == WAVE_FORMAT_EXTENSIBLE && sub_format == 3)
}

/// What the device delivers.
#[derive(Clone, Copy, PartialEq, Eq, Debug, Structural)]
pub struct Format {
    pub channels: u16,
    pub is_float: bool,
    pub bits: u16,
}

/// How the samples of a packet are read.
#[derive(Clone, Copy, PartialEq, Eq, Debug, Structural)]
pub enum Source {
    Silence,
    Float,
    Int16,
    Int32,
}

/// A packet is marked as not following on from the one before.
pub open spec fn discontinuous(flags: u32) -> bool {
    flags % 2 == 1
}

/// A packet is marked as silent.
pub open spec fn silent(flags: u32) -> bool {
    flags / 2 % 2 == 1
}

/// How the samples of a packet are read. A format that cannot be read gives
/// silence.
pub open spec fn source_of(f: Format, flags: u32, missing: bool) -> Source {
    if silent(flags) || missing {
        Source::Silence
    } else if f.is_float && f.bits == 32 {
        Source::Float
    } else if f.bits == 16 {
        Source::Int16
    } else if f.bits == 32 {
        Source::Int32
    } else {
        Source::Silence
    }
}

/// Where the capture is: the action it is waiting for.
#[derive(Clone, Copy, PartialEq, Eq, Debug, Structural)]
pub enum Phase {
    Waiting,
    Starting,
    Stopping,
    Peeking,
    Fetching,
    Delivering { source: Source, samples: u64 },
    /// Stopping for good.
    Closing,
    Ended,
}

/// What is to be done next.
#[derive(Clone, Copy, PartialEq, Eq, Debug, Structural)]
pub enum Action {
    /// Wait for the device or for a change of mind.
    Wait,
    /// Throw away what the device holds, forget where the last utterance ended,
    /// and start.
    ResetAndStart,
    Stop,
    /// Ask how large the next packet is.
    NextPacket,
    /// Take the packet.
    GetBuffer,
    /// Read so many samples in this way, give the packet back, and hand on what
    /// they come to at the target rate.
    Deliver { source: Source, samples: u64 },
    End,
}

/// What came of an action.
#[derive(Clone, Copy, PartialEq, Eq, Debug, Structural)]
pub enum Input {
    /// The wait is over; whether to end, and whether the key is down.
    Woken { shutdown: bool, armed: bool },
    Started { ok: bool, reset_us: u32, start_us: u32 },
    Stopped,
    /// The frames of the next packet, or none where the device failed.
    Packet(Option<u32>),
    Buffer { ok: bool, frames: u32, flags: u32, missing: bool },
    Delivered,
}

/// The capture of one device.
#[derive(Clone, Copy, PartialEq, Eq, Debug, Structural)]
pub struct Capture {
    pub format: Format,
    pub running: bool,
    pub stats: CaptureStats,
    pub phase: Phase,
}

/// What the capture asks for.
pub open spec fn wants(c: Capture) -> Action {
    match c.phase {
        Phase::Waiting => Action::Wait,
        Phase::Starting => Action::ResetAndStart,
        Phase::Stopping => Action::Stop,
        Phase::Peeking => Action::NextPacket,
        Phase::Fetching => Action::GetBuffer,
        Phase::Delivering { source, samples } => Action::Deliver { source, samples },
        Phase::Closing => Action::Stop,
        Phase::Ended => Action::End,
    }
}

/// One more, counting on from nothing when the counter is full.
pub open spec fn counted(n: u32) -> u32 {
    if n == u32::MAX {
        0
    } else {
        (n + 1) as u32
    }
}

/// The capture with one more device error, waiting.
pub open spec fn failed(c: Capture) -> Capture {
    Capture {
        phase: Phase::Waiting,
        stats: CaptureStats { device_errors: counted(c.stats.device_errors), ..c.stats },
        ..c
    }
}

/// What the capture becomes. An input that does not answer the action it asked
/// for changes nothing.
pub open spec fn next(c: Capture, i: Input) -> Capture {
    match (c.phase, i) {
        (Phase::Waiting, Input::Woken { shutdown, armed }) => {
            let phase = if shutdown {
                if c.running {
                    Phase::Closing
                } else {
                    Phase::Ended
                }
            } else if armed && !c.running {
                Phase::Starting
            } else if !armed && c.running {
                Phase::Stopping
            } else if c.running {
                Phase::Peeking
            } else {
                Phase::Waiting
            };
            Capture { phase, ..c }
        },
        (Phase::Starting, Input::Started { ok, reset_us, start_us }) => {
            let timed = Capture {
                stats: CaptureStats {
                    last_reset_us: reset_us,
                    last_start_us: start_us,
                    ..c.stats
                },
                ..c
            };
            if ok {
                Capture { running: true, phase: Phase::Peeking, ..timed }
            } else {
                failed(timed)
            }
        },
        (Phase::Stopping, Input::Stopped) => Capture {
            running: false,
            phase: Phase::Waiting,
            ..c
        },
        (Phase::Peeking, Input::Packet(frames)) => match frames {
            None => failed(c),
            Some(n) => Capture {
                phase: if n == 0 {
                    Phase::Waiting
                } else {
                    Phase::Fetching
                },
                ..c
            },
        },
        (Phase::Fetching, Input::Buffer { ok, frames, flags, missing }) => if ok {
            Capture {
                phase: Phase::Delivering {
                    source: source_of(c.format, flags, missing),
                    samples: (frames * c.format.channels) as u64,
                },
                stats: CaptureStats {
                    packets: counted(c.stats.packets),
                    glitches: if discontinuous(flags) {
                        counted(c.stats.glitches)
                    } else {
                        c.stats.glitches
                    },
                    ..c.stats
                },
                ..c
            }
        } else {
            failed(c)
        },
        (Phase::Delivering { .. }, Input::Delivered) => Capture { phase: Phase::Peeking, ..c },
        (Phase::Closing, Input::Stopped) => Capture { running: false, phase: Phase::Ended, ..c },
        _ => c,
    }
}

fn count(n: u32) -> (r: u32)
    ensures
        r == counted(n),
{
    if n == u32::MAX {
        0
    } else {
        n + 1
    }
}

impl Capture {
    /// A device that has been opened and is stopped.
    pub fn open(format: Format) -> (c: Capture)
        ensures
            c == (Capture {
                format,
                running: false,
                stats: no_stats(),
                phase: Phase::Waiting,
            }),
    {
        Capture { format, running: false, stats: CaptureStats::default(), phase: Phase::Waiting }
    }

    /// What is to be done now.
    pub fn action(&self) -> (a: Action)
        ensures
            a == wants(*self),
    {
        match self.phase {
            Phase::Waiting => Action::Wait,
            Phase::Starting => Action::ResetAndStart,
            Phase::Stopping => Action::Stop,
            Phase::Peeking => Action::NextPacket,
            Phase::Fetching => Action::GetBuffer,
            Phase::Delivering { source, samples } => Action::Deliver { source, samples },
            Phase::Closing => Action::Stop,
            Phase::Ended => Action::End,
        }
    }

    fn fail(&mut self)
        ensures
            *final(self) == failed(*old(self)),
    {
        self.stats.device_errors = count(self.stats.device_errors);
        self.phase = Phase::Waiting;
    }

    fn source(&self, flags: u32, missing: bool) -> (s: Source)
        ensures
            s == source_of(self.format, flags, missing),
    {
        if flags / 2 % 2 == 1 || missing {
            Source::Silence
        } else if self.format.is_float && self.format.bits == 32 {
            Source::Float
        } else if self.format.bits == 16 {
            Source::Int16
        } else if self.format.bits == 32 {
            Source::Int32
        } else {
            Source::Silence
        }
    }

    /// Takes in what came of the action.
    pub fn step(&mut self, input: Input)
        ensures
            *final(self) == next(*old(self), input),
    {
        match (self.phase, input) {
            (Phase::Waiting, Input::Woken { shutdown, armed }) => {
                self.phase = if shutdown {
                    if self.running {
                        Phase::Closing
                    } else {
                        Phase::Ended
                    }
                } else if armed && !self.running {
                    Phase::Starting
                } else if !armed && self.running {
                    Phase::Stopping
                } else if self.running {
                    Phase::Peeking
                } else {
                    Phase::Waiting
                };
            },
            (Phase::Starting, Input::Started { ok, reset_us, start_us }) => {
                self.stats.last_reset_us = reset_us;
                self.stats.last_start_us = start_us;
                if ok {
                    self.running = true;
                    self.phase = Phase::Peeking;
                } else {
                    self.fail();
                }
            },
            (Phase::Stopping, Input::Stopped) => {
                self.running = false;
                self.phase = Phase::Waiting;
            },
            (Phase::Peeking, Input::Packet(frames)) => {
                match frames {
                    None => self.fail(),
                    Some(n) => {
                        self.phase = if n == 0 {
                            Phase::Waiting
                        } else {
                            Phase::Fetching
                        };
                    },
                }
            },
            (Phase::Fetching, Input::Buffer { ok, frames, flags, missing }) => {
                if ok {
                    if flags % 2 == 1 {
                        self.stats.glitches = count(self.stats.glitches);
                    }
                    self.stats.packets = count(self.stats.packets);
                    let channels: u16 = self.format.channels;
                    assert(0 <= frames * channels <= 0xFFFF_FFFF * 0xFFFF) by (nonlinear_arith)
                        requires
                            0 <= frames <= 0xFFFF_FFFF,
                            0 <= channels <= 0xFFFF,
                    ;
                    let samples: u64 = frames as u64 * channels as u64;
                    let source: Source = self.source(flags, missing);
                    self.phase = Phase::Delivering { source, samples };
                } else {
                    self.fail();
                }
            },
            (Phase::Delivering { .. }, Input::Delivered) => {
                self.phase = Phase::Peeking;
            },
            (Phase::Closing, Input::Stopped) => {
                self.running = false;
                self.phase = Phase::Ended;
            },
            _ => {},
        }
    }
}

// ---- laws -------------------------------------------------------------------------

/// The device runs in every phase in which packets are taken, and is stopped in
/// every phase in which it has yet to be started or has ended.
pub open spec fn consistent(c: Capture) -> bool {
    match c.phase {
        Phase::Waiting => true,
        Phase::Starting => !c.running,
        Phase::Stopping => c.running,
        Phase::Peeking => c.running,
        Phase::Fetching => c.running,
        Phase::Delivering { .. } => c.running,
        Phase::Closing => c.running,
        Phase::Ended => !c.running,
    }
}

/// The capture after a list of inputs.
pub open spec fn after(c: Capture, inputs: Seq<Input>) -> Capture
    decreases inputs.len(),
{
    if inputs.len() == 0 {
        c
    } else {
        next(after(c, inputs.drop_last()), inputs.last())
    }
}

/// Whatever happens, no packet is taken from a device that is stopped: without
/// the key there is nothing to hear.
pub proof fn law_nothing_is_heard_while_stopped(format: Format, inputs: Seq<Input>)
    ensures
        ({
            let c = after(
                Capture { format, running: false, stats: no_stats(), phase: Phase::Waiting },
                inputs,
            );
            &&& consistent(c)
            &&& !c.running ==> !(wants(c) is GetBuffer) && !(wants(c) is Deliver)
        }),
    decreases inputs.len(),
{
    if inputs.len() > 0 {
        law_nothing_is_heard_while_stopped(format, inputs.drop_last());
    }
}

/// A key that came up stops the device before anything else is taken from it, and
/// a key that went down starts it from an empty device.
pub proof fn law_key_starts_and_stops_the_device(c: Capture, armed: bool)
    requires
        c.phase == Phase::Waiting,
    ensures
        ({
            let woken = next(c, Input::Woken { shutdown: false, armed });
            &&& armed && !c.running ==> wants(woken) == Action::ResetAndStart
            &&& !armed && c.running ==> {
                &&& wants(woken) == Action::Stop
                &&& !next(woken, Input::Stopped).running
                &&& wants(next(woken, Input::Stopped)) == Action::Wait
            }
            &&& !armed && !c.running ==> woken == c
        }),
{
}

/// A shutdown leaves the device stopped.
pub proof fn law_shutdown_stops_the_device(c: Capture, armed: bool)
    requires
        c.phase == Phase::Waiting,
    ensures
        ({
            let woken = next(c, Input::Woken { shutdown: true, armed });
            let done = if c.running {
                next(woken, Input::Stopped)
            } else {
                woken
            };
            &&& c.running ==> wants(woken) == Action::Stop
            &&& wants(done) == Action::End
            &&& !done.running
        }),
{
}

} // verus!
