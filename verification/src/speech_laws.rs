//! What the recogniser's worker makes of the lines that it hears, and when.

use vstd::prelude::*;
use crate::asr;
use crate::asr::Line;
use crate::asr_service;
use crate::asr_service::{ActionView, CmdView, Config, EventView, InputView, Phase, WorkerView};
use crate::asr_service_laws;
use crate::words;

verus! {

/// The words of lines, one line after the other.
pub open spec fn heard(lines: Seq<Line>) -> Seq<Seq<char>>
    decreases lines.len(),
{
    if lines.len() == 0 {
        seq![]
    } else {
        heard(lines.drop_last()) + words::words(lines.last().text@)
    }
}

/// A transcript says the words of its lines.
pub proof fn lemma_heard(lines: Seq<Line>)
    ensures
        words::words(asr::transcript(asr::line_texts(lines))) == heard(lines),
    decreases lines.len(),
{
    asr::law_transcript_keeps_every_word(asr::line_texts(lines));
    lemma_all(lines);
}

proof fn lemma_all(lines: Seq<Line>)
    ensures
        asr::words_of_all(asr::line_texts(lines)) == heard(lines),
    decreases lines.len(),
{
    let texts = asr::line_texts(lines);
    let each = texts.map_values(|t: Seq<char>| words::words(t));
    if lines.len() > 0 {
        lemma_all(lines.drop_last());
        let fewer = asr::line_texts(lines.drop_last());
        assert(fewer =~= texts.drop_last());
        assert(each.drop_last() =~= fewer.map_values(|t: Seq<char>| words::words(t)));
        assert(each.last() == words::words(lines.last().text@));
    }
}

/// A partial says every word that has been heard so far, and is given unless nothing was;
/// a call that failed is told of. Either way the next is counted from now.
pub proof fn law_partial_says_all_that_was_heard(
    w: WorkerView,
    lines: Result<Seq<Line>, Seq<char>>,
    now: int,
)
    requires
        w.phase == Phase::Hearing,
    ensures
        ({
            let (v, events) = asr_service::next(w, InputView::Heard { lines, now });
            &&& v.last_partial == Some(now)
            &&& v.phase == Phase::Looking
            &&& match lines {
                Err(e) => events == seq![EventView::Error(e)],
                Ok(l) => {
                    &&& events.len() <= 1
                    &&& heard(l).len() > 0 ==> events.len() == 1
                    &&& forall|k: int|
                        0 <= k < events.len() ==> (#[trigger] events[k] matches EventView::Partial {
                            utterance,
                            text,
                        } && utterance == w.number && words::words(text) == heard(l))
                },
            }
        }),
{
    if let Ok(l) = lines {
        lemma_heard(l);
        let text = asr::transcript(asr::line_texts(l));
        if text.len() == 0 {
            assert(text =~= Seq::<char>::empty());
            assert(words::words(text).len() == 0);
        }
    }
}

/// The final says every word of the utterance, and says how long it took: since the key came
/// up, and since the worker saw that it had.
pub proof fn law_final_says_all_that_was_heard(
    w: WorkerView,
    released: u64,
    waited: u64,
    from: u64,
    l: Seq<Line>,
    now: int,
)
    requires
        w.phase == (Phase::Finishing { released, waited, from }),
        released <= now,
        from <= now,
    ensures
        ({
            let (v, events) = asr_service::next(w, InputView::Heard { lines: Ok(l), now });
            &&& v.phase == Phase::Clearing
            &&& events.len() == 1
            &&& events[0] matches EventView::Final {
                utterance,
                text,
                lines,
                wait_for_inflight,
                drain,
                total,
            }
            &&& utterance == w.number
            &&& words::words(text) == heard(l)
            &&& lines == l
            &&& wait_for_inflight == waited
            &&& drain == now - from
            &&& total == now - released
        }),
{
    lemma_heard(l);
}

/// Where the last call fails, that is told, and a final with nothing in it follows.
pub proof fn law_final_comes_of_a_failure_too(
    w: WorkerView,
    released: u64,
    waited: u64,
    from: u64,
    e: Seq<char>,
    now: int,
)
    requires
        w.phase == (Phase::Finishing { released, waited, from }),
    ensures
        ({
            let (v, events) = asr_service::next(w, InputView::Heard { lines: Err(e), now });
            &&& events.len() == 2
            &&& events[0] == EventView::Error(e)
            &&& events[1] matches EventView::Final { utterance, text, lines, .. }
            &&& utterance == w.number
            &&& text.len() == 0
            &&& lines.len() == 0
        }),
{
    lemma_heard(seq![]);
    asr::law_one_more_line(Seq::empty(), Seq::empty());
    assert(asr::line_texts(Seq::<Line>::empty()) =~= Seq::<Seq<char>>::empty());
}

/// While the key is down a partial is asked for at once, and then whenever as many
/// milliseconds have gone by since the last as the cadence says; between two there is rest.
pub proof fn law_partials_come_at_the_cadence(w: WorkerView, error: Option<Seq<char>>, now: int)
    requires
        w.phase == Phase::Feeding,
        w.last_partial matches Some(last) ==> last <= now,
    ensures
        ({
            let v = asr_service::next(w, InputView::Drained { error, now }).0;
            let due = match w.last_partial {
                None => true,
                Some(last) => now - last >= 1_000_000 * w.config.partial_cadence_ms,
            };
            &&& v.phase == if due {
                Phase::Deciding
            } else {
                Phase::Resting
            }
            &&& v.last_partial == w.last_partial
        }),
{
}

/// What is asked for in a partial is what the knobs say.
pub proof fn law_partials_are_forced_where_asked(w: WorkerView)
    requires
        w.phase == Phase::Hearing,
    ensures
        asr_service::wants(w) == (ActionView::Transcribe { force: w.config.force_partials }),
{
}

/// The time of the release is when the key came up, where that was marked, and now
/// otherwise; what was in flight then is what has gone by since.
pub proof fn law_release_is_timed(w: WorkerView, marked: Option<u64>, now: u64)
    requires
        w.phase == Phase::Releasing,
    ensures
        ({
            let seen = match marked {
                Some(t) => Some(t as int),
                None => None,
            };
            let v = asr_service::next(w, InputView::Released { at: seen, now: now as int }).0;
            &&& v.phase matches Phase::Catching { released, waited, from }
            &&& from == now
            &&& released == (match marked {
                Some(t) => t,
                None => now,
            })
            &&& waited == if released <= now {
                now - released
            } else {
                0
            }
        }),
{
}

/// An utterance is begun by making a stream, starting it and feeding it what was said
/// before; then the key and the commands are looked at before each drain, and the first
/// partial follows the first drain.
pub proof fn law_order_of_an_utterance(w: WorkerView, a: int, b: int)
    requires
        w.phase == Phase::Creating,
    ensures
        ({
            let inputs = seq![
                InputView::Created(None),
                InputView::Started(None),
                InputView::Drained { error: None, now: a },
                InputView::ReleasePending(false),
                InputView::Quiet,
                InputView::Drained { error: None, now: b },
                InputView::ReleasePending(false),
            ];
            let v = asr_service_laws::after(w, inputs);
            &&& v == (WorkerView { phase: Phase::Hearing, last_partial: None, ..w })
            &&& asr_service_laws::said(w, inputs).len() == 0
        }),
{
    let i0 = InputView::Created(None);
    let i1 = InputView::Started(None);
    let i2 = InputView::Drained { error: None, now: a };
    let i3 = InputView::ReleasePending(false);
    let i4 = InputView::Quiet;
    let i5 = InputView::Drained { error: None, now: b };
    let i6 = InputView::ReleasePending(false);
    let inputs = seq![i0, i1, i2, i3, i4, i5, i6];
    reveal_with_fuel(asr_service_laws::after, 8);
    reveal_with_fuel(asr_service_laws::said, 8);
    assert(inputs.drop_first() =~= seq![i1, i2, i3, i4, i5, i6]);
    assert(seq![i1, i2, i3, i4, i5, i6].drop_first() =~= seq![i2, i3, i4, i5, i6]);
    assert(seq![i2, i3, i4, i5, i6].drop_first() =~= seq![i3, i4, i5, i6]);
    assert(seq![i3, i4, i5, i6].drop_first() =~= seq![i4, i5, i6]);
    assert(seq![i4, i5, i6].drop_first() =~= seq![i5, i6]);
    assert(seq![i5, i6].drop_first() =~= seq![i6]);
    assert(seq![i6].drop_first() =~= Seq::<InputView>::empty());
}

/// No failure is passed over: whatever call of the recogniser failed, its words are in an
/// error that is reported.
pub proof fn law_failures_are_reported(w: WorkerView, e: Seq<char>, now: int)
    ensures
        w.phase == Phase::Creating ==> asr_service::next(w, InputView::Created(Some(e))).1 == seq![
            EventView::Error(e),
        ],
        w.phase == Phase::Starting ==> asr_service::next(w, InputView::Started(Some(e))).1 == seq![
            EventView::Error(e),
        ],
        w.phase == Phase::Biasing ==> asr_service::next(w, InputView::Biased(Some(e))).1 == seq![
            EventView::Error("keyterms rejected: "@ + e),
        ],
        (w.phase == Phase::Priming || w.phase == Phase::Feeding || w.phase is Catching
            || w.phase is Topping) ==> asr_service::next(
            w,
            InputView::Drained { error: Some(e), now },
        ).1 == seq![EventView::Error(e)],
{
}

/// What a command does while the key is down: a release ends the utterance, a cancel drops
/// it without a final, a shutdown stops the worker, and the others wait for its end.
pub proof fn law_commands_during_an_utterance(w: WorkerView, t: Seq<char>, c: Config)
    requires
        w.phase == Phase::Polling,
    ensures
        asr_service::next(w, InputView::Command(CmdView::Release)).0 == (WorkerView {
            phase: Phase::Releasing,
            ..w
        }),
        asr_service::next(w, InputView::Command(CmdView::Cancel)).0 == (WorkerView {
            phase: Phase::Clearing,
            ..w
        }),
        asr_service::next(w, InputView::Command(CmdView::Shutdown)).0.phase == Phase::Ended,
        asr_service::next(w, InputView::Command(CmdView::SetKeyterms(t))).0 == (WorkerView {
            phase: Phase::Feeding,
            waiting_terms: w.waiting_terms.push(t),
            ..w
        }),
        asr_service::next(w, InputView::Command(CmdView::SetConfig(c))).0 == (WorkerView {
            phase: Phase::Feeding,
            waiting_config: Some(c),
            ..w
        }),
        asr_service::next(w, InputView::Quiet).0.phase == Phase::Feeding,
        asr_service::next(w, InputView::Disconnected).0.phase == Phase::Feeding,
{
}

/// What a command does between utterances: one is begun under its number, terms are set and
/// knobs taken at once, and a release or a cancel has nothing to end.
pub proof fn law_commands_at_rest(w: WorkerView, n: u64, t: Seq<char>, c: Config)
    requires
        w.phase == Phase::Idle,
        w.waiting_terms.len() == 0,
        w.waiting_config is None,
        !w.beginning,
    ensures
        asr_service::next(w, InputView::Command(CmdView::Begin(n))).0 == (WorkerView {
            number: n,
            phase: Phase::Creating,
            ..w
        }),
        asr_service::next(w, InputView::Command(CmdView::Release)).0 == w,
        asr_service::next(w, InputView::Command(CmdView::Cancel)).0 == w,
        asr_service::next(w, InputView::Command(CmdView::SetConfig(c))).0 == (WorkerView {
            config: c,
            ..w
        }),
        asr_service::wants(asr_service::next(w, InputView::Command(CmdView::SetKeyterms(t))).0)
            == ActionView::SetKeyterms(t),
        asr_service::next(w, InputView::Command(CmdView::Shutdown)).0.phase == Phase::Ended,
        asr_service::next(w, InputView::Disconnected).0.phase == Phase::Ended,
        asr_service::wants(w) == ActionView::Receive,
{
}

/// An utterance that is begun while another is under way takes its place: its number
/// holds, and it is begun anew.
pub proof fn law_new_utterance_takes_the_place(w: WorkerView, n: u64)
    requires
        w.phase == Phase::Polling,
        w.waiting_terms.len() == 0,
        w.waiting_config is None,
    ensures
        ({
            let (v, events) = asr_service::next(w, InputView::Command(CmdView::Begin(n)));
            &&& v.number == n
            &&& v.phase == Phase::Creating
            &&& v.config == w.config
            &&& events.len() == 0
        }),
{
}

} // verus!
