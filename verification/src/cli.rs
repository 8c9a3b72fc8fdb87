//! What the programs are asked for on their command lines.

use vstd::prelude::*;
use crate::args;
use crate::args::{
    is_given, number_of, remarks_of, split_args, split_pairs, text_of, texts_of, Item,
};
use crate::asr::ARCH_SMALL_STREAMING;
use crate::chars;
use crate::chars::{from_chars, push_str, str_eq, to_chars};
use crate::control::HotkeyEvent;
use crate::dictionary;
use crate::number;
use crate::number::{parse_up_to, push_decimal};
use crate::target_app;
use crate::words;
use crate::words::{join_texts, trim_chars, Class};

verus! {

// ---- the app ----------------------------------------------------------------------

/// What the app is asked to do.
pub enum Run {
    MicTest(u64),
    Dictate(u64),
    OverlayDemo(u64, String),
    Settings,
    SettingsSelftest(String),
    Dictionary(String),
    WhichApp,
    Help,
    /// Sit in the tray and dictate.
    Tray,
}

pub enum RunView {
    MicTest(int),
    Dictate(int),
    OverlayDemo(int, Seq<char>),
    Settings,
    SettingsSelftest(Seq<char>),
    Dictionary(Seq<char>),
    WhichApp,
    Help,
    Tray,
}

impl View for Run {
    type V = RunView;

    open spec fn view(&self) -> RunView {
        match *self {
            Run::MicTest(n) => RunView::MicTest(n as int),
            Run::Dictate(n) => RunView::Dictate(n as int),
            Run::OverlayDemo(n, t) => RunView::OverlayDemo(n as int, t@),
            Run::Settings => RunView::Settings,
            Run::SettingsSelftest(t) => RunView::SettingsSelftest(t@),
            Run::Dictionary(t) => RunView::Dictionary(t@),
            Run::WhichApp => RunView::WhichApp,
            Run::Help => RunView::Help,
            Run::Tray => RunView::Tray,
        }
    }
}

/// A number of seconds behind an option, or a default where there is none.
pub open spec fn seconds(argv: Seq<Seq<char>>, default: nat) -> int {
    if argv.len() > 1 && number::parsed(argv[1], u64::MAX as nat) is Some {
        number::parsed(argv[1], u64::MAX as nat)->0 as int
    } else {
        default as int
    }
}

/// The arguments from one on, as one text.
pub open spec fn rest(argv: Seq<Seq<char>>, from: int, sep: Seq<char>) -> Seq<char> {
    if from < argv.len() {
        words::joined(argv.skip(from), sep)
    } else {
        Seq::<char>::empty()
    }
}

/// What the app is asked to do: the first argument says it.
pub open spec fn run_of(argv: Seq<Seq<char>>) -> RunView {
    if argv.len() == 0 {
        RunView::Tray
    } else if argv[0] == "--mic-test"@ {
        RunView::MicTest(seconds(argv, 3))
    } else if argv[0] == "--dictate"@ {
        RunView::Dictate(seconds(argv, 5))
    } else if argv[0] == "--overlay-demo"@ {
        RunView::OverlayDemo(seconds(argv, 6), rest(argv, 2, " "@))
    } else if argv[0] == "--settings"@ {
        RunView::Settings
    } else if argv[0] == "--settings-selftest"@ {
        RunView::SettingsSelftest(rest(argv, 1, "\n"@))
    } else if argv[0] == "--dictionary"@ {
        RunView::Dictionary(rest(argv, 1, " "@))
    } else if argv[0] == "--which-app"@ {
        RunView::WhichApp
    } else if argv[0] == "--help"@ || argv[0] == "-h"@ {
        RunView::Help
    } else {
        RunView::Tray
    }
}

fn seconds_of(argv: &[String], default: u64) -> (n: u64)
    ensures
        n == seconds(chars::texts(argv@), default as nat),
{
    if argv.len() > 1 {
        assert(chars::texts(argv@)[1] == argv@[1]@);
        if let Some(n) = parse_up_to(argv[1].as_str(), u64::MAX) {
            return n;
        }
    }
    default
}

fn rest_of(argv: &[String], from: usize, sep: &str) -> (s: String)
    ensures
        s@ == rest(chars::texts(argv@), from as int, sep@),
{
    let ghost all = chars::texts(argv@);
    let n: usize = argv.len();
    if from >= n {
        return String::new();
    }
    let mut kept: Vec<String> = Vec::new();
    let mut i: usize = from;
    assert(chars::texts(kept@) =~= all.subrange(from as int, from as int));
    while i < n
        invariant
            from <= i <= n == argv@.len(),
            all == chars::texts(argv@),
            chars::texts(kept@) == all.subrange(from as int, i as int),
        decreases n - i,
    {
        let ghost before = chars::texts(kept@);
        let s: String = argv[i].clone();
        let ghost shown = s@;
        kept.push(s);
        i += 1;
        assert(chars::texts(kept@) =~= before.push(shown));
        assert(all.subrange(from as int, i as int) =~= before.push(all[i - 1]));
    }
    assert(all.subrange(from as int, n as int) =~= all.skip(from as int));
    join_texts(kept.as_slice(), sep)
}

/// What the app is asked to do.
pub fn run(argv: &[String]) -> (r: Run)
    ensures
        r@ == run_of(chars::texts(argv@)),
{
    if argv.len() == 0 {
        return Run::Tray;
    }
    assert(chars::texts(argv@)[0] == argv@[0]@);
    let first: &str = argv[0].as_str();
    if str_eq(first, "--mic-test") {
        Run::MicTest(seconds_of(argv, 3))
    } else if str_eq(first, "--dictate") {
        Run::Dictate(seconds_of(argv, 5))
    } else if str_eq(first, "--overlay-demo") {
        Run::OverlayDemo(seconds_of(argv, 6), rest_of(argv, 2, " "))
    } else if str_eq(first, "--settings") {
        Run::Settings
    } else if str_eq(first, "--settings-selftest") {
        Run::SettingsSelftest(rest_of(argv, 1, "\n"))
    } else if str_eq(first, "--dictionary") {
        Run::Dictionary(rest_of(argv, 1, " "))
    } else if str_eq(first, "--which-app") {
        Run::WhichApp
    } else if str_eq(first, "--help") || str_eq(first, "-h") {
        Run::Help
    } else {
        Run::Tray
    }
}

// ---- the benchmarks ---------------------------------------------------------------

/// The options of the latency harness that take a value.
pub const BENCH_VALUED: [&'static str; 10] = [
    "--model",
    "--arch",
    "--wav",
    "--chunk-ms",
    "--cadence-ms",
    "--hold-secs",
    "--utterances",
    "--keyterms",
    "--opt",
    "--repeat",
];

/// All its options.
pub const BENCH_KNOWN: [&'static str; 13] = [
    "--model",
    "--arch",
    "--wav",
    "--chunk-ms",
    "--cadence-ms",
    "--hold-secs",
    "--utterances",
    "--keyterms",
    "--opt",
    "--repeat",
    "--trace",
    "--skip-fragments",
    "--force",
];

/// What the latency harness is asked for.
pub struct BenchArgs {
    pub model: String,
    pub arch: u32,
    pub wav: String,
    pub chunk_ms: u64,
    pub cadence_ms: u64,
    pub force: bool,
    /// What was given for the length of a hold: the last that is a number counts.
    pub hold_secs: Vec<String>,
    pub utterances: u64,
    pub keyterms: String,
    pub opts: Vec<(String, String)>,
    pub trace: bool,
    pub repeat: u64,
    pub skip_fragments: bool,
    /// What is said of arguments that are not understood.
    pub complaints: Vec<String>,
}

/// The options of a command line of the latency harness.
pub open spec fn bench_items(argv: Seq<Seq<char>>) -> Seq<args::ItemParts> {
    args::items_of(argv, target_app::fixed(BENCH_VALUED@))
}

/// What the latency harness is asked for.
pub fn parse_bench(argv: &[String]) -> (a: BenchArgs)
    ensures
        ({
            let items = bench_items(chars::texts(argv@));
            &&& a.model@ == args::last_text(items, "--model"@, "models/small-streaming-en"@)
            &&& a.arch == args::last_number(
                items,
                "--arch"@,
                u32::MAX as nat,
                ARCH_SMALL_STREAMING as nat,
            )
            &&& a.wav@ == args::last_text(items, "--wav"@, "bench/corpus/two_cities_16k.wav"@)
            &&& a.chunk_ms == args::last_number(items, "--chunk-ms"@, u64::MAX as nat, 40)
            &&& a.cadence_ms == args::last_number(items, "--cadence-ms"@, u64::MAX as nat, 200)
            &&& a.force == args::given(items, "--force"@)
            &&& chars::texts(a.hold_secs@) == args::all_texts(items, "--hold-secs"@)
            &&& a.utterances == args::last_number(items, "--utterances"@, u64::MAX as nat, 8)
            &&& a.keyterms@ == args::last_text(items, "--keyterms"@, ""@)
            &&& dictionary::pairs(a.opts@) == args::pairs_of(args::all_texts(items, "--opt"@))
            &&& a.trace == args::given(items, "--trace"@)
            &&& a.repeat == args::last_number(items, "--repeat"@, u64::MAX as nat, 1)
            &&& a.skip_fragments == args::given(items, "--skip-fragments"@)
            &&& chars::texts(a.complaints@) == args::remarks(
                items,
                target_app::fixed(BENCH_KNOWN@),
                true,
            )
        }),
{
    let items: Vec<Item> = split_args(argv, BENCH_VALUED.as_slice());
    let list: &[Item] = items.as_slice();
    BenchArgs {
        model: text_of(list, "--model", "models/small-streaming-en"),
        arch: small_number(list, "--arch", ARCH_SMALL_STREAMING),
        wav: text_of(list, "--wav", "bench/corpus/two_cities_16k.wav"),
        chunk_ms: number_of(list, "--chunk-ms", u64::MAX, 40),
        cadence_ms: number_of(list, "--cadence-ms", u64::MAX, 200),
        force: is_given(list, "--force"),
        hold_secs: texts_of(list, "--hold-secs"),
        utterances: number_of(list, "--utterances", u64::MAX, 8),
        keyterms: text_of(list, "--keyterms", ""),
        opts: split_pairs(texts_of(list, "--opt").as_slice()),
        trace: is_given(list, "--trace"),
        repeat: number_of(list, "--repeat", u64::MAX, 1),
        skip_fragments: is_given(list, "--skip-fragments"),
        complaints: remarks_of(list, BENCH_KNOWN.as_slice(), true),
    }
}

proof fn lemma_last_number_fits(
    items: Seq<args::ItemParts>,
    name: Seq<char>,
    max: nat,
    default: nat,
)
    requires
        default <= max,
    ensures
        args::last_number(items, name, max, default) <= max,
    decreases items.len(),
{
    if items.len() > 0 {
        lemma_last_number_fits(items.drop_last(), name, max, default);
    }
}

fn small_number(items: &[Item], name: &str, default: u32) -> (n: u32)
    ensures
        n == args::last_number(args::item_parts(items@), name@, u32::MAX as nat, default as nat),
{
    proof {
        lemma_last_number_fits(
            args::item_parts(items@),
            name@,
            u32::MAX as nat,
            default as nat,
        );
    }
    number_of(items, name, u32::MAX as u64, default as u64) as u32
}

/// The options of the end-to-end harness that take a value.
pub const E2E_VALUED: [&'static str; 9] = [
    "--model",
    "--arch",
    "--wav",
    "--chunk-ms",
    "--cadence-ms",
    "--holds",
    "--base-secs",
    "--phase-step-ms",
    "--opt",
];

/// All its options.
pub const E2E_KNOWN: [&'static str; 11] = [
    "--model",
    "--arch",
    "--wav",
    "--chunk-ms",
    "--cadence-ms",
    "--holds",
    "--base-secs",
    "--phase-step-ms",
    "--opt",
    "--no-force",
    "--verbose",
];

/// What the end-to-end harness is asked for.
pub struct E2eArgs {
    pub model: String,
    pub arch: u32,
    pub wav: String,
    pub chunk_ms: u64,
    pub cadence_ms: u64,
    pub force: bool,
    pub holds: u64,
    /// What was given for the shortest hold: the last that is a number counts.
    pub base_secs: Vec<String>,
    pub phase_step_ms: u64,
    pub opts: Vec<(String, String)>,
    pub verbose: bool,
    pub complaints: Vec<String>,
}

/// What the end-to-end harness is asked for.
pub fn parse_e2e(argv: &[String]) -> (a: E2eArgs)
    ensures
        ({
            let items = args::items_of(chars::texts(argv@), target_app::fixed(E2E_VALUED@));
            &&& a.model@ == args::last_text(items, "--model"@, "models/small-streaming-en"@)
            &&& a.arch == args::last_number(
                items,
                "--arch"@,
                u32::MAX as nat,
                ARCH_SMALL_STREAMING as nat,
            )
            &&& a.wav@ == args::last_text(items, "--wav"@, "bench/corpus/two_cities_16k.wav"@)
            &&& a.chunk_ms == args::last_number(items, "--chunk-ms"@, u64::MAX as nat, 20)
            &&& a.cadence_ms == args::last_number(items, "--cadence-ms"@, u64::MAX as nat, 100)
            &&& a.force == !args::given(items, "--no-force"@)
            &&& a.holds == args::last_number(items, "--holds"@, u64::MAX as nat, 24)
            &&& chars::texts(a.base_secs@) == args::all_texts(items, "--base-secs"@)
            &&& a.phase_step_ms == args::last_number(
                items,
                "--phase-step-ms"@,
                u64::MAX as nat,
                37,
            )
            &&& dictionary::pairs(a.opts@) == args::pairs_of(args::all_texts(items, "--opt"@))
            &&& a.verbose == args::given(items, "--verbose"@)
            &&& chars::texts(a.complaints@) == args::remarks(
                items,
                target_app::fixed(E2E_KNOWN@),
                false,
            )
        }),
{
    let items: Vec<Item> = split_args(argv, E2E_VALUED.as_slice());
    let list: &[Item] = items.as_slice();
    E2eArgs {
        model: text_of(list, "--model", "models/small-streaming-en"),
        arch: small_number(list, "--arch", ARCH_SMALL_STREAMING),
        wav: text_of(list, "--wav", "bench/corpus/two_cities_16k.wav"),
        chunk_ms: number_of(list, "--chunk-ms", u64::MAX, 20),
        cadence_ms: number_of(list, "--cadence-ms", u64::MAX, 100),
        force: !is_given(list, "--no-force"),
        holds: number_of(list, "--holds", u64::MAX, 24),
        base_secs: texts_of(list, "--base-secs"),
        phase_step_ms: number_of(list, "--phase-step-ms", u64::MAX, 37),
        opts: split_pairs(texts_of(list, "--opt").as_slice()),
        verbose: is_given(list, "--verbose"),
        complaints: remarks_of(list, E2E_KNOWN.as_slice(), false),
    }
}

/// The options of the scorer that take a value.
pub const WER_VALUED: [&'static str; 6] = [
    "--model",
    "--arch",
    "--wav",
    "--ref",
    "--cadence-ms",
    "--chunk-ms",
];

/// All its options.
pub const WER_KNOWN: [&'static str; 7] = [
    "--model",
    "--arch",
    "--wav",
    "--ref",
    "--cadence-ms",
    "--chunk-ms",
    "--show",
];

/// What the scorer is asked for.
pub struct WerArgs {
    pub model: String,
    pub arch: u32,
    pub wav: String,
    pub reference: String,
    pub cadence_ms: u64,
    pub chunk_ms: u64,
    pub show: bool,
    pub complaints: Vec<String>,
}

/// What the scorer is asked for.
pub fn parse_wer(argv: &[String]) -> (a: WerArgs)
    ensures
        ({
            let items = args::items_of(chars::texts(argv@), target_app::fixed(WER_VALUED@));
            &&& a.model@ == args::last_text(items, "--model"@, "models/small-streaming-en"@)
            &&& a.arch == args::last_number(
                items,
                "--arch"@,
                u32::MAX as nat,
                ARCH_SMALL_STREAMING as nat,
            )
            &&& a.wav@ == args::last_text(items, "--wav"@, "bench/corpus/two_cities_16k.wav"@)
            &&& a.reference@ == args::last_text(
                items,
                "--ref"@,
                "bench/corpus/two_cities.ref.txt"@,
            )
            &&& a.cadence_ms == args::last_number(items, "--cadence-ms"@, u64::MAX as nat, 250)
            &&& a.chunk_ms == args::last_number(items, "--chunk-ms"@, u64::MAX as nat, 20)
            &&& a.show == args::given(items, "--show"@)
            &&& chars::texts(a.complaints@) == args::remarks(
                items,
                target_app::fixed(WER_KNOWN@),
                false,
            )
        }),
{
    let items: Vec<Item> = split_args(argv, WER_VALUED.as_slice());
    let list: &[Item] = items.as_slice();
    WerArgs {
        model: text_of(list, "--model", "models/small-streaming-en"),
        arch: small_number(list, "--arch", ARCH_SMALL_STREAMING),
        wav: text_of(list, "--wav", "bench/corpus/two_cities_16k.wav"),
        reference: text_of(list, "--ref", "bench/corpus/two_cities.ref.txt"),
        cadence_ms: number_of(list, "--cadence-ms", u64::MAX, 250),
        chunk_ms: number_of(list, "--chunk-ms", u64::MAX, 20),
        show: is_given(list, "--show"),
        complaints: remarks_of(list, WER_KNOWN.as_slice(), false),
    }
}

// ---- the control client -----------------------------------------------------------

/// The event that a control command stands for.
pub open spec fn event_named(cmd: Seq<char>) -> Option<HotkeyEvent> {
    if cmd == "down"@ {
        Some(HotkeyEvent::Down)
    } else if cmd == "up"@ {
        Some(HotkeyEvent::Up)
    } else if cmd == "cancel"@ {
        Some(HotkeyEvent::Cancel)
    } else if cmd == "toggle"@ {
        Some(HotkeyEvent::Toggle)
    } else if cmd == "reload"@ {
        Some(HotkeyEvent::Reload)
    } else if cmd == "report"@ {
        Some(HotkeyEvent::Report)
    } else if cmd == "quit"@ {
        Some(HotkeyEvent::Quit)
    } else {
        None
    }
}

/// The event that a control command stands for, if it is one.
pub fn control_event(cmd: &str) -> (e: Option<HotkeyEvent>)
    ensures
        e == event_named(cmd@),
{
    if str_eq(cmd, "down") {
        Some(HotkeyEvent::Down)
    } else if str_eq(cmd, "up") {
        Some(HotkeyEvent::Up)
    } else if str_eq(cmd, "cancel") {
        Some(HotkeyEvent::Cancel)
    } else if str_eq(cmd, "toggle") {
        Some(HotkeyEvent::Toggle)
    } else if str_eq(cmd, "reload") {
        Some(HotkeyEvent::Reload)
    } else if str_eq(cmd, "report") {
        Some(HotkeyEvent::Report)
    } else if str_eq(cmd, "quit") {
        Some(HotkeyEvent::Quit)
    } else {
        None
    }
}

/// The socket that control commands go to: under the runtime directory, or where
/// there is none under a directory that is named for the user.
pub open spec fn socket_path(runtime: Option<Seq<char>>, uid: u32) -> Seq<char> {
    let dir = match runtime {
        Some(v) => if v.len() == 0 {
            "/tmp/flow-"@ + number::decimal(uid as nat)
        } else if v.last() == '/' {
            v + "flow"@
        } else {
            v + "/flow"@
        },
        None => "/tmp/flow-"@ + number::decimal(uid as nat),
    };
    dir + "/control.sock"@
}

/// The socket that control commands go to.
pub fn control_socket(runtime: Option<&str>, uid: u32) -> (s: String)
    ensures
        s@ == socket_path(
            match runtime {
                Some(v) => Some(v@),
                None => None,
            },
            uid,
        ),
{
    let mut s: String = String::new();
    let mut fallback: bool = true;
    if let Some(v) = runtime {
        let cs: Vec<char> = to_chars(v);
        let n: usize = cs.len();
        if n > 0 {
            fallback = false;
            s = v.to_owned();
            if cs[n - 1] == '/' {
                push_str(&mut s, "flow");
            } else {
                push_str(&mut s, "/flow");
            }
        }
    }
    if fallback {
        s = "/tmp/flow-".to_owned();
        push_decimal(&mut s, uid as u64);
    }
    push_str(&mut s, "/control.sock");
    s
}

/// What a reply to a control command means.
pub fn control_reply(reply: &str) -> (r: Result<(), String>)
    ensures
        r is Ok <==> words::trim(reply@) == "ok"@,
        r matches Err(e) ==> e@ == "flow-core replied \""@ + words::trim(reply@) + "\""@,
{
    let inner: String = from_chars(
        trim_chars(to_chars(reply).as_slice(), Class::Whitespace).as_slice(),
    );
    if str_eq(inner.as_str(), "ok") {
        Ok(())
    } else {
        let mut e: String = "flow-core replied \"".to_owned();
        push_str(&mut e, inner.as_str());
        push_str(&mut e, "\"");
        Err(e)
    }
}

} // verus!
