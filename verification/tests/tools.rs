use flow::bench::{
    chunk_len, factor_places, fragment_fits, hold_count, hold_range, next_hold, truncate, Feed,
};
use flow::cli::{
    control_event, control_reply, control_socket, parse_bench, parse_e2e, parse_wer, run, Run,
};
use flow::control::HotkeyEvent;
use flow::number::{parse_up_to, to_decimal};
use flow::stats::{report as report_line, Samples, Shown};
use flow::trace::{report, to_json, Accumulated, ReportShown, Spans, Utterance};
use flow::wav::{Pcm, Wav, WavError};

fn argv(s: &[&str]) -> Vec<String> {
    s.iter().map(|a| a.to_string()).collect()
}

#[test]
fn the_first_argument_says_what_to_do() {
    assert!(matches!(run(&[]), Run::Tray));
    assert!(matches!(run(&argv(&["--what"])), Run::Tray));
    assert!(matches!(run(&argv(&["--mic-test"])), Run::MicTest(3)));
    assert!(matches!(run(&argv(&["--mic-test", "7"])), Run::MicTest(7)));
    assert!(matches!(run(&argv(&["--dictate", "x"])), Run::Dictate(5)));
    assert!(matches!(run(&argv(&["--overlay-demo"])), Run::OverlayDemo(6, t) if t.is_empty()));
    assert!(matches!(run(&argv(&["--overlay-demo", "2", "a", "b"])), Run::OverlayDemo(2, t) if t == "a b"));
    assert!(matches!(run(&argv(&["--settings"])), Run::Settings));
    assert!(matches!(run(&argv(&["--settings-selftest", "a", "b"])), Run::SettingsSelftest(t) if t == "a\nb"));
    assert!(matches!(run(&argv(&["--dictionary"])), Run::Dictionary(t) if t.is_empty()));
    assert!(matches!(run(&argv(&["--dictionary", "a", "b"])), Run::Dictionary(t) if t == "a b"));
    assert!(matches!(run(&argv(&["--which-app"])), Run::WhichApp));
    assert!(matches!(run(&argv(&["-h"])), Run::Help));
    assert!(matches!(run(&argv(&["--help"])), Run::Help));
}

#[test]
fn the_latency_harness_reads_its_options() {
    let a = parse_bench(&[]);
    assert_eq!((a.model.as_str(), a.arch), ("models/small-streaming-en", 4));
    assert_eq!(a.wav, "bench/corpus/two_cities_16k.wav");
    assert_eq!((a.chunk_ms, a.cadence_ms, a.utterances, a.repeat), (40, 200, 8, 1));
    assert!(!a.force && !a.trace && !a.skip_fragments && a.complaints.is_empty());
    let a = parse_bench(&argv(&[
        "--model", "m", "--arch", "2", "--arch", "x", "--chunk-ms", "10", "--force", "--opt", "a=b=c",
        "--opt", "bad", "--huh", "--hold-secs", "1.5", "--keyterms", "--trace", "--repeat",
    ]));
    assert_eq!((a.model.as_str(), a.arch, a.chunk_ms, a.repeat), ("m", 2, 10, 1));
    assert_eq!(a.opts, [("a".to_string(), "b=c".to_string())]);
    assert_eq!(a.hold_secs, ["1.5"]);
    assert_eq!(a.keyterms, "--trace");
    assert!(a.force && !a.trace);
    assert_eq!(
        a.complaints,
        ["--opt expects name=value, got bad", "ignoring unknown argument --huh"]
    );
}

#[test]
fn the_other_tools_read_their_options() {
    let a = parse_e2e(&argv(&["--holds", "3", "--no-force", "--base-secs", "2", "--verbose", "--opt", "x"]));
    assert_eq!((a.holds, a.chunk_ms, a.cadence_ms, a.phase_step_ms), (3, 20, 100, 37));
    assert!(!a.force && a.verbose && a.opts.is_empty() && a.complaints.is_empty());
    assert_eq!(a.base_secs, ["2"]);
    assert!(parse_e2e(&[]).force);
    let w = parse_wer(&argv(&["--ref", "r.txt", "--show", "zip"]));
    assert_eq!((w.reference.as_str(), w.cadence_ms, w.chunk_ms), ("r.txt", 250, 20));
    assert!(w.show);
    assert_eq!(w.complaints, ["ignoring unknown argument zip"]);
    assert_eq!(parse_wer(&[]).reference, "bench/corpus/two_cities.ref.txt");
}

#[test]
fn the_control_client_speaks_one_line() {
    assert_eq!(control_event("down"), Some(HotkeyEvent::Down));
    assert_eq!(control_event("up"), Some(HotkeyEvent::Up));
    assert_eq!(control_event("cancel"), Some(HotkeyEvent::Cancel));
    assert_eq!(control_event("toggle"), Some(HotkeyEvent::Toggle));
    assert_eq!(control_event("reload"), Some(HotkeyEvent::Reload));
    assert_eq!(control_event("report"), Some(HotkeyEvent::Report));
    assert_eq!(control_event("quit"), Some(HotkeyEvent::Quit));
    assert_eq!(control_event("Down"), None);
    assert_eq!(control_socket(Some("/run/user/1000"), 5), "/run/user/1000/flow/control.sock");
    assert_eq!(control_socket(Some("/run/"), 5), "/run/flow/control.sock");
    assert_eq!(control_socket(Some(""), 1000), "/tmp/flow-1000/control.sock");
    assert_eq!(control_socket(None, 0), "/tmp/flow-0/control.sock");
    assert_eq!(control_reply(" ok\n"), Ok(()));
    assert_eq!(control_reply("busy\n"), Err("flow-core replied \"busy\"".to_string()));
}

#[test]
fn audio_is_cut_into_holds() {
    assert_eq!(chunk_len(40), 640);
    assert_eq!((hold_count(8, 1000, 96), hold_count(3, 1000, 96), hold_count(8, 10, 96)), (8, 3, 1));
    assert_eq!(hold_range(2, 1000, 96, 8), (192, 288));
    assert_eq!(hold_range(0, 10, 96, 1), (0, 10));
    assert_eq!(next_hold(90, 10, 100), Some((90, 100)));
    assert_eq!(next_hold(91, 10, 100), Some((0, 10)));
    assert_eq!(next_hold(0, 101, 100), None);
    assert!(fragment_fits(90, 10, 100) && !fragment_fits(91, 10, 100));
    assert_eq!((factor_places(1), factor_places(20), factor_places(100)), ((0, 0, 0), (10, 19, 19), (50, 95, 99)));
    assert_eq!(truncate("héllo", 5), "héllo");
    assert_eq!(truncate("héllo!", 5), "héllo...");
}

#[test]
fn a_feed_keeps_the_pace_of_speech() {
    let mut f = Feed::new(1000, 40, 100);
    assert_eq!(f.next_chunk(1010), 30);
    assert_eq!(f.next_chunk(1090), 0);
    assert!(!f.due(1099) && f.due(1100));
    f.polled(false, 1100);
    assert_eq!(f.first_partial, None);
    f.polled(true, 1250);
    f.polled(true, 1350);
    assert_eq!((f.first_partial, f.last_poll), (Some(250), 1350));
}

#[test]
fn percentiles_are_samples() {
    let mut s = Samples::new();
    assert!(s.is_empty());
    assert_eq!((s.p(50), s.max(), s.figures()), (None, None, None));
    for v in [50, 15, 40, 20, 35] {
        s.push(v);
    }
    assert_eq!(s.len(), 5);
    assert_eq!((s.p(0), s.p(30), s.p(40), s.p(50), s.p(100)), (Some(15), Some(20), Some(20), Some(35), Some(50)));
    assert_eq!(s.max(), Some(50));
    let f = s.figures().unwrap();
    assert_eq!((f.count, f.p50, f.p90, f.p95, f.p99, f.max), (5, 35, 50, 50, 50, 50));
}

fn shown(v: &str) -> Option<Shown> {
    Some(Shown {
        count: 12,
        p50: v.to_string(),
        p90: v.to_string(),
        p95: v.to_string(),
        p99: v.to_string(),
        max: "12345678.9".to_string(),
    })
}

#[test]
fn a_report_lines_up() {
    assert_eq!(report_line("short", &None), format!("{:<34} no samples", "short"));
    assert_eq!(
        report_line("key up", &shown("1.5")),
        format!(
            "{:<34} n={:<5} p50={:>7} p90={:>7} p95={:>7} p99={:>7} max={:>7}  (ms)",
            "key up", 12, "1.5", "1.5", "1.5", "1.5", "12345678.9"
        )
    );
}

#[test]
fn a_trace_holds_times_and_no_text() {
    let mut u = Utterance::begin(100);
    u.t0b_armed = 103;
    u.t1_first_packet = 110;
    u.t7_hotkey_up = 200;
    u.t9_final_ready = 240;
    u.t12_inserted = 250;
    u.chars = 14;
    u.reset_us = 5;
    u.start_us = 6;
    u.insert_mode = "paste";
    u.terminal = true;
    assert_eq!((u.user_perceived(), u.activation(), u.arm()), (50, 10, 3));
    assert_eq!((u.finalisation(), u.insertion(), u.first_partial()), (40, 10, None));
    let t = |s: &str| s.to_string();
    let spans = Spans {
        user_perceived: t("1"),
        activation: t("2"),
        arm: t("3"),
        finalisation: t("4"),
        insertion: t("5"),
        first_partial: None,
        peak_level: t("0.250"),
    };
    assert_eq!(
        to_json(&u, &spans),
        "{\"user_perceived_ms\":1,\"activation_ms\":2,\"arm_ms\":3,\"finalisation_ms\":4,\"insertion_ms\":5,\"first_partial_ms\":null,\"chars\":14,\"reset_us\":5,\"start_us\":6,\"peak_level\":0.250,             \"insert_mode\":\"paste\",\"terminal\":true}"
    );
    let mut acc = Accumulated::new();
    acc.record(&u);
    u.t6_first_partial = 130;
    assert_eq!(u.first_partial(), Some(30));
    acc.record(&u);
    assert_eq!((acc.perceived.len(), acc.first_partial.len()), (2, 1));
    assert_eq!(Utterance::default().insert_mode, "none");
}

#[test]
fn there_is_nothing_to_report_before_the_first_dictation() {
    let none = ReportShown {
        perceived: None,
        finalisation: None,
        insertion: None,
        activation: None,
        first_partial: None,
    };
    assert_eq!(report(&none), "No dictations recorded yet.");
    let some = ReportShown { perceived: shown("1.0"), ..none };
    let text = report(&some);
    let lines: Vec<&str> = text.split('\n').collect();
    assert_eq!(lines.len(), 5);
    assert!(lines[0].starts_with("KEY UP -> TEXT ON SCREEN"));
    assert_eq!(lines[4], format!("{:<34} no samples", "hotkey -> first partial"));
}

#[test]
fn numbers_are_written_and_read() {
    assert_eq!(to_decimal(0), "0");
    assert_eq!(to_decimal(u64::MAX), "18446744073709551615");
    assert_eq!(parse_up_to("18446744073709551615", u64::MAX), Some(u64::MAX));
    assert_eq!(parse_up_to("18446744073709551616", u64::MAX), None);
    assert_eq!(parse_up_to("+7", 10), Some(7));
    for bad in ["", "+", "-1", "1 ", "0x1", "11"] {
        assert_eq!(parse_up_to(bad, 10), None);
    }
}

fn chunk(id: &[u8; 4], body: &[u8]) -> Vec<u8> {
    let mut out = id.to_vec();
    out.extend((body.len() as u32).to_le_bytes());
    out.extend(body);
    if body.len() % 2 == 1 {
        out.push(0);
    }
    out
}

fn fmt(format: u16, channels: u16, rate: u32, bits: u16) -> Vec<u8> {
    let mut b = format.to_le_bytes().to_vec();
    b.extend(channels.to_le_bytes());
    b.extend(rate.to_le_bytes());
    b.extend([0; 6]);
    b.extend(bits.to_le_bytes());
    b
}

fn file(chunks: &[Vec<u8>]) -> Vec<u8> {
    let mut out = b"RIFF\0\0\0\0WAVE".to_vec();
    for c in chunks {
        out.extend(c);
    }
    out
}

#[test]
fn wave_files_are_read() {
    let samples: [i16; 4] = [0, -1, 32767, -32768];
    let data: Vec<u8> = samples.iter().flat_map(|s| s.to_le_bytes()).collect();
    let w = Wav::read(&file(&[
        chunk(b"LIST", b"odd"),
        chunk(b"fmt ", &fmt(1, 2, 16000, 16)),
        chunk(b"data", &data),
    ]))
    .ok()
    .unwrap();
    assert_eq!((w.channels, w.sample_rate, w.frames()), (2, 16000, 2));
    assert!(matches!(w.samples, Pcm::I16(v) if v == samples));

    let wide: [i32; 2] = [i32::MIN, 7];
    let data: Vec<u8> = wide.iter().flat_map(|s| s.to_le_bytes()).collect();
    let w = Wav::read(&file(&[chunk(b"fmt ", &fmt(1, 1, 48000, 32)), chunk(b"data", &data)])).ok().unwrap();
    assert!(matches!(w.samples, Pcm::I32(v) if v == wide));

    let mut ext = fmt(0xFFFE, 1, 44100, 32);
    ext.extend([0; 8]);
    ext.extend(3u16.to_le_bytes());
    let data: Vec<u8> = [0.5f32, -1.0].iter().flat_map(|s| s.to_le_bytes()).collect();
    let w = Wav::read(&file(&[chunk(b"fmt ", &ext), chunk(b"data", &data)])).ok().unwrap();
    assert!(matches!(w.samples, Pcm::F32(v) if v == [0.5f32.to_bits(), (-1.0f32).to_bits()]));
}

#[test]
fn wave_files_that_cannot_be_read_are_named() {
    let said = |bytes: &[u8]| match Wav::read(bytes) {
        Ok(_) => panic!("it was read"),
        Err(e) => e.message("a.wav"),
    };
    assert_eq!(said(b"RIFF"), "a.wav: not a RIFF/WAVE file");
    assert_eq!(said(&file(&[chunk(b"fmt ", &[0; 15])])), "a.wav: short fmt chunk");
    assert_eq!(said(&file(&[chunk(b"fmt ", &fmt(1, 1, 8000, 16))])), "a.wav: no data chunk");
    assert_eq!(
        said(&file(&[chunk(b"fmt ", &fmt(6, 1, 8000, 8)), chunk(b"data", &[])])),
        "a.wav: unsupported format 6 / 8 bits"
    );
    assert!(matches!(Wav::read(b""), Err(WavError::NotWave)));
}

#[test]
fn samples_and_formatters_can_be_copied() {
    let mut a = Samples::default();
    assert_eq!(a.len(), 0);
    a.push(7);
    let b = a.clone();
    a.push(8);
    assert_eq!((a.len(), b.len()), (2, 1));
    let f = flow::format::Formatter::default();
    assert_eq!(f.clone().format("hi"), f.format("hi"));
    assert_eq!(format!("{:?}", f.clone()), format!("{f:?}"));
}
