use flow::asr::{check, copy_line, error_string, join, load_error, Line, RawLine};
use flow::asr_service::{Action, AudioSink, Cmd, Config, Event, Input, Phase, Worker};

const MS: u64 = 1_000_000;

fn line(text: &str) -> Line {
    Line {
        text: text.to_string(),
        id: 7,
        start_bits: 0,
        duration_bits: 0,
        is_complete: true,
        is_updated: false,
        is_new: false,
        last_latency_ms: 12,
    }
}

/// Brings a worker up to the look at the key that comes before a partial.
fn deciding(w: &mut Worker) {
    assert!(w.step(Input::Command(Cmd::Begin(1))).is_empty());
    assert!(matches!(w.action(), Action::CreateStream));
    assert!(w.step(Input::Created(Ok(()))).is_empty());
    assert!(matches!(w.action(), Action::StartStream));
    assert!(w.step(Input::Started(Ok(()))).is_empty());
    assert!(matches!(w.action(), Action::Drain));
    assert!(w.step(Input::Drained { error: None, now: 0 }).is_empty());
    assert!(matches!(w.action(), Action::CheckRelease));
    w.step(Input::ReleasePending(false));
    assert!(matches!(w.action(), Action::Poll));
    w.step(Input::Quiet);
    assert!(matches!(w.action(), Action::Drain));
    w.step(Input::Drained { error: None, now: MS });
    assert!(matches!(w.action(), Action::CheckRelease));
    assert_eq!(w.phase, Phase::Deciding);
}

#[test]
fn knobs_have_their_defaults() {
    let c = Config::default();
    assert_eq!((c.partial_cadence_ms, c.force_partials, c.release_tail_ms), (250, false, 15));
}

#[test]
fn no_partial_is_begun_once_the_key_is_up() {
    let mut w = Worker::new(Config::default());
    deciding(&mut w);
    w.step(Input::ReleasePending(true));
    assert!(matches!(w.action(), Action::ReadRelease));
    assert_eq!(w.phase, Phase::Releasing);
}

#[test]
fn a_partial_is_reported_and_the_next_waits_its_turn() {
    let mut w = Worker::new(Config::default());
    deciding(&mut w);
    w.step(Input::ReleasePending(false));
    assert!(matches!(w.action(), Action::Transcribe { force: false }));
    let events = w.step(Input::Heard { lines: Ok(vec![line(" hello ")]), now: 2 * MS });
    assert_eq!(events.len(), 1);
    assert!(matches!(&events[0], Event::Partial { utterance: 1, text } if text == "hello"));
    assert!(events[0].wakes());
    w.step(Input::ReleasePending(false));
    w.step(Input::Quiet);
    w.step(Input::Drained { error: None, now: 251 * MS });
    assert!(matches!(w.action(), Action::Rest));
    w.step(Input::Rested);
    w.step(Input::ReleasePending(false));
    w.step(Input::Quiet);
    w.step(Input::Drained { error: None, now: 252 * MS });
    assert_eq!(w.phase, Phase::Deciding);
    w.step(Input::ReleasePending(false));
    assert!(w.step(Input::Heard { lines: Ok(vec![line("  ")]), now: 253 * MS }).is_empty());
}

#[test]
fn an_utterance_ends_in_one_final() {
    let mut w = Worker::new(Config::default());
    deciding(&mut w);
    w.step(Input::ReleasePending(true));
    w.step(Input::Released { at: Some(100 * MS), now: 104 * MS });
    assert!(matches!(w.action(), Action::Drain));
    w.step(Input::Drained { error: None, now: 105 * MS });
    match w.action() {
        Action::WaitFor(ns) => assert_eq!(ns, 10 * MS as u128),
        _ => panic!("the tail is waited out"),
    }
    w.step(Input::Rested);
    w.step(Input::Drained { error: None, now: 115 * MS });
    assert!(matches!(w.action(), Action::Finish));
    let events = w.step(Input::Heard {
        lines: Ok(vec![line("one"), line(""), line(" two ")]),
        now: 150 * MS,
    });
    assert_eq!(events.len(), 1);
    match &events[0] {
        Event::Final { utterance, text, lines, wait_for_inflight, drain, total } => {
            assert_eq!(*utterance, 1);
            assert_eq!(text, "one two");
            assert_eq!(lines.len(), 3);
            assert_eq!(lines[0].id, 7);
            assert_eq!((*wait_for_inflight, *drain, *total), (4 * MS, 46 * MS, 50 * MS));
        }
        _ => panic!("the final event"),
    }
    assert!(matches!(w.action(), Action::ClearRelease));
    w.step(Input::Cleared);
    assert!(matches!(w.action(), Action::Receive));
}

#[test]
fn a_failed_end_is_an_error_and_an_empty_final() {
    let mut w = Worker::new(Config { partial_cadence_ms: 0, force_partials: true, release_tail_ms: 0 });
    deciding(&mut w);
    w.step(Input::ReleasePending(true));
    w.step(Input::Released { at: None, now: 9 });
    w.step(Input::Drained { error: Some("full".to_string()), now: 10 });
    assert!(matches!(w.action(), Action::Finish));
    let events = w.step(Input::Heard { lines: Err("boom".to_string()), now: 11 });
    assert_eq!(events.len(), 2);
    assert!(matches!(&events[0], Event::Error(e) if e == "boom"));
    assert!(!events[0].wakes());
    assert!(matches!(&events[1], Event::Final { text, lines, .. } if text.is_empty() && lines.is_empty()));
}

#[test]
fn changes_wait_for_the_end_of_the_utterance() {
    let mut w = Worker::new(Config::default());
    deciding(&mut w);
    w.step(Input::ReleasePending(false));
    w.step(Input::Heard { lines: Ok(vec![]), now: 0 });
    w.step(Input::ReleasePending(false));
    let fresh = Config { partial_cadence_ms: 1, force_partials: true, release_tail_ms: 2 };
    w.step(Input::Command(Cmd::SetConfig(fresh)));
    assert_eq!(w.config, Config::default());
    w.step(Input::Drained { error: None, now: 0 });
    w.step(Input::Rested);
    w.step(Input::ReleasePending(false));
    w.step(Input::Command(Cmd::SetKeyterms("a,b".to_string())));
    w.step(Input::Drained { error: None, now: 0 });
    w.step(Input::Rested);
    w.step(Input::ReleasePending(false));
    w.step(Input::Command(Cmd::Release));
    w.step(Input::Released { at: Some(0), now: 20 * MS });
    w.step(Input::Drained { error: None, now: 20 * MS });
    w.step(Input::Heard { lines: Ok(vec![]), now: 20 * MS });
    w.step(Input::Cleared);
    assert_eq!(w.config, fresh);
    assert!(matches!(w.action(), Action::SetKeyterms(t) if t == "a,b"));
    let events = w.step(Input::Biased(Err("too long".to_string())));
    assert!(matches!(&events[0], Event::Error(e) if e == "keyterms rejected: too long"));
    assert!(matches!(w.action(), Action::Receive));
}

#[test]
fn stray_commands_and_failures_leave_the_worker_idle() {
    let mut w = Worker::new(Config::default());
    w.step(Input::Command(Cmd::Release));
    w.step(Input::Command(Cmd::Cancel));
    assert_eq!(w.phase, Phase::Idle);
    w.step(Input::Command(Cmd::Begin(1)));
    let events = w.step(Input::Created(Err("no stream".to_string())));
    assert!(matches!(&events[0], Event::Error(e) if e == "no stream"));
    assert_eq!(w.phase, Phase::Idle);
    w.step(Input::Command(Cmd::Begin(1)));
    w.step(Input::Created(Ok(())));
    w.step(Input::Started(Err("no start".to_string())));
    assert_eq!(w.phase, Phase::Idle);
    w.step(Input::Command(Cmd::Shutdown));
    assert!(matches!(w.action(), Action::Exit));
}

/// Brings a worker to where it takes commands during an utterance.
fn polling(w: &mut Worker) {
    deciding(w);
    w.step(Input::ReleasePending(false));
    w.step(Input::Heard { lines: Ok(vec![line("old words")]), now: 2 * MS });
    w.step(Input::ReleasePending(false));
    assert_eq!(w.phase, Phase::Polling);
}

#[test]
fn a_cancelled_utterance_is_dropped_without_a_word() {
    let mut w = Worker::new(Config::default());
    polling(&mut w);
    assert!(w.step(Input::Command(Cmd::Cancel)).is_empty());
    assert!(matches!(w.action(), Action::ClearRelease));
    assert!(w.step(Input::Cleared).is_empty());
    assert!(matches!(w.action(), Action::Receive));
    w.step(Input::Command(Cmd::Begin(2)));
    assert!(matches!(w.action(), Action::CreateStream));
    assert_eq!(w.number, 2);
}

#[test]
fn a_new_utterance_takes_the_place_of_one_that_is_under_way() {
    let mut w = Worker::new(Config { partial_cadence_ms: 0, force_partials: false, release_tail_ms: 0 });
    polling(&mut w);
    assert!(w.step(Input::Command(Cmd::Begin(9))).is_empty());
    assert!(matches!(w.action(), Action::CreateStream));
    w.step(Input::Created(Ok(())));
    w.step(Input::Started(Ok(())));
    w.step(Input::Drained { error: None, now: 3 * MS });
    w.step(Input::ReleasePending(true));
    w.step(Input::Released { at: Some(4 * MS), now: 4 * MS });
    w.step(Input::Drained { error: None, now: 4 * MS });
    let events = w.step(Input::Heard { lines: Ok(vec![line("new")]), now: 5 * MS });
    assert!(matches!(&events[0], Event::Final { utterance: 9, text, .. } if text == "new"));
}

#[test]
fn a_change_governs_the_utterance_that_is_begun_next() {
    let two = Config { partial_cadence_ms: 2, force_partials: true, release_tail_ms: 0 };
    let mut w = Worker::new(Config::default());
    polling(&mut w);
    w.step(Input::Command(Cmd::SetConfig(two)));
    assert_eq!(w.config, Config::default());
    w.step(Input::Drained { error: None, now: 3 * MS });
    w.step(Input::Rested);
    w.step(Input::ReleasePending(false));
    w.step(Input::Command(Cmd::SetKeyterms("a,b".to_string())));
    w.step(Input::Drained { error: None, now: 3 * MS });
    w.step(Input::Rested);
    w.step(Input::ReleasePending(false));
    assert_eq!(w.phase, Phase::Polling);
    assert!(w.step(Input::Command(Cmd::Begin(2))).is_empty());
    assert_eq!((w.config, w.waiting_config), (two, None));
    assert!(matches!(w.action(), Action::SetKeyterms(t) if t == "a,b"));
    w.step(Input::Biased(Ok(())));
    assert!(matches!(w.action(), Action::CreateStream));
    assert_eq!((w.config, w.number, w.waiting_terms.len()), (two, 2, 0));
    w.step(Input::Created(Err("no stream".to_string())));
    assert_eq!((w.phase, w.config), (Phase::Idle, two));
    let three = Config { partial_cadence_ms: 3, force_partials: false, release_tail_ms: 0 };
    w.step(Input::Command(Cmd::SetConfig(three)));
    w.step(Input::Command(Cmd::Begin(3)));
    w.step(Input::Created(Ok(())));
    w.step(Input::Started(Ok(())));
    w.step(Input::Drained { error: None, now: 0 });
    w.step(Input::ReleasePending(true));
    w.step(Input::Released { at: Some(0), now: 0 });
    w.step(Input::Drained { error: None, now: 0 });
    let events = w.step(Input::Heard { lines: Ok(vec![]), now: 0 });
    assert!(matches!(&events[0], Event::Final { utterance: 3, .. }));
    w.step(Input::Cleared);
    assert_eq!((w.phase, w.config), (Phase::Idle, three));
}

#[test]
fn values_can_be_copied_and_shown() {
    let e = Event::Final {
        utterance: 4,
        text: "x".to_string(),
        lines: vec![Line::default(), line("y")],
        wait_for_inflight: 1,
        drain: 2,
        total: 3,
    };
    assert_eq!(format!("{:?}", e.clone()), format!("{e:?}"));
    assert_eq!(Line::default().text, "");
    assert_eq!(Line::default().id, 0);
}

#[test]
fn a_shutdown_ends_an_utterance_at_once() {
    let mut w = Worker::new(Config::default());
    deciding(&mut w);
    w.step(Input::ReleasePending(false));
    w.step(Input::Heard { lines: Ok(vec![]), now: 0 });
    w.step(Input::ReleasePending(false));
    assert!(w.step(Input::Command(Cmd::Shutdown)).is_empty());
    assert_eq!(w.phase, Phase::Ended);
    let mut idle = Worker::new(Config::default());
    idle.step(Input::Disconnected);
    assert_eq!(idle.phase, Phase::Ended);
}

#[test]
fn the_sink_hands_over_what_was_pushed() {
    let mut sink: AudioSink<f32> = AudioSink::new();
    let mut spare = vec![9.0];
    assert!(!sink.drain(&mut spare));
    assert!(spare.is_empty());
    sink.push(&[0.5, 0.25]);
    sink.push(&[]);
    sink.push(&[1.0]);
    assert!(sink.drain(&mut spare));
    assert_eq!(spare, [0.5, 0.25, 1.0]);
    sink.push(&[2.0]);
    sink.clear();
    assert!(!sink.drain(&mut spare));
}

#[test]
fn lines_are_joined_without_the_blank_ones() {
    assert_eq!(join(&[line(" a "), line("\t"), line("b c")]), "a b c");
    assert_eq!(join(&[]), "");
}

#[test]
fn errors_of_the_recogniser_are_named() {
    assert!(check(0, None).is_ok());
    assert_eq!(check(-3, Some("bad handle".to_string())), Err("bad handle".to_string()));
    assert_eq!(error_string(0, Some("bad handle".to_string())), "ok");
    assert_eq!(error_string(-2147483648, None), "unknown moonshine error -2147483648");
    assert_eq!(load_error("models/x", 4, "gone"), "loading models/x (arch 4): gone");
}

#[test]
fn lines_are_copied_out() {
    let raw = RawLine {
        text: None,
        id: 3,
        start_bits: 1.5f32.to_bits(),
        duration_bits: 2,
        is_complete: -1,
        is_updated: 0,
        is_new: 1,
        last_latency_ms: 9,
    };
    let l = copy_line(raw);
    assert_eq!((l.text.as_str(), l.id, f32::from_bits(l.start_bits)), ("", 3, 1.5));
    assert_eq!((l.is_complete, l.is_updated, l.is_new, l.last_latency_ms), (true, false, true, 9));
    let raw = RawLine {
        text: Some("x".to_string()),
        id: 0,
        start_bits: 0,
        duration_bits: 0,
        is_complete: 0,
        is_updated: 0,
        is_new: 0,
        last_latency_ms: 0,
    };
    assert_eq!(copy_line(raw).text, "x");
}
