//! What holds of the recogniser's worker whatever it is told.

use vstd::prelude::*;
use crate::asr::Line;
use crate::asr_service;
use crate::asr_service::{
    ActionView, CmdView, Config, EventView, InputView, Phase, WorkerView,
};

verus! {

/// The worker has an open stream.
pub open spec fn open_stream(p: Phase) -> bool {
    match p {
        Phase::Idle => false,
        Phase::Biasing => false,
        Phase::Creating => false,
        Phase::Starting => false,
        Phase::Clearing => false,
        Phase::Ended => false,
        _ => true,
    }
}

/// The key is up and the utterance is being brought to its end.
pub open spec fn ending(p: Phase) -> bool {
    match p {
        Phase::Releasing => true,
        Phase::Catching { .. } => true,
        Phase::Waiting { .. } => true,
        Phase::Topping { .. } => true,
        Phase::Finishing { .. } => true,
        Phase::Clearing => true,
        _ => false,
    }
}

/// The key is up, and no new utterance has been begun.
pub open spec fn at_rest(w: WorkerView) -> bool {
    &&& !w.beginning
    &&& ending(w.phase) || w.phase == Phase::Idle || w.phase == Phase::Biasing || w.phase
        == Phase::Ended
}

/// The worker after a list of inputs.
pub open spec fn after(w: WorkerView, inputs: Seq<InputView>) -> WorkerView
    decreases inputs.len(),
{
    if inputs.len() == 0 {
        w
    } else {
        asr_service::next(after(w, inputs.drop_last()), inputs.last()).0
    }
}

/// The list holds no command to begin an utterance.
pub open spec fn no_begin(inputs: Seq<InputView>) -> bool {
    forall|i: int|
        0 <= i < inputs.len() ==> !((#[trigger] inputs[i]) matches InputView::Command(
            CmdView::Begin(_),
        ))
}

proof fn lemma_no_begin(inputs: Seq<InputView>)
    requires
        inputs.len() > 0,
        no_begin(inputs),
    ensures
        no_begin(inputs.drop_last()),
        !(inputs.last() matches InputView::Command(CmdView::Begin(_))),
{
    assert forall|i: int| 0 <= i < inputs.drop_last().len() implies !(
    (#[trigger] inputs.drop_last()[i]) matches InputView::Command(CmdView::Begin(_))) by {
        assert(inputs.drop_last()[i] == inputs[i]);
    }
    assert(inputs.last() == inputs[inputs.len() - 1]);
}

/// All that the worker reports over a list of inputs.
pub open spec fn said(w: WorkerView, inputs: Seq<InputView>) -> Seq<EventView>
    decreases inputs.len(),
{
    if inputs.len() == 0 {
        seq![]
    } else {
        said(w, inputs.drop_last()) + asr_service::next(
            after(w, inputs.drop_last()),
            inputs.last(),
        ).1
    }
}

/// The number of the utterance that something was heard in, if it was.
pub open spec fn of_utterance(e: EventView) -> Option<u64> {
    match e {
        EventView::Partial { utterance, .. } => Some(utterance),
        EventView::Final { utterance, .. } => Some(utterance),
        EventView::Error(_) => None,
    }
}

/// How many of the events end an utterance.
pub open spec fn finals(events: Seq<EventView>) -> nat {
    events.filter(|e: EventView| e is Final).len()
}

/// A partial is begun only as the answer to a look at the key that found it
/// still down.
pub proof fn law_partial_only_while_the_key_is_down(w: WorkerView, i: InputView)
    requires
        !(asr_service::wants(w) is Transcribe),
        asr_service::wants(asr_service::next(w, i).0) is Transcribe,
    ensures
        asr_service::wants(w) is CheckRelease,
        i == InputView::ReleasePending(false),
{
}

/// A look that finds the key up ends the utterance at once, wherever it was.
pub proof fn law_release_is_heeded_at_once(w: WorkerView)
    requires
        asr_service::wants(w) is CheckRelease,
    ensures
        asr_service::next(w, InputView::ReleasePending(true)).0 == asr_service::at(
            w,
            Phase::Releasing,
        ),
{
}

/// Once the release is heeded, no partial is begun until a new utterance is.
pub proof fn law_no_partial_after_release(w: WorkerView, inputs: Seq<InputView>)
    requires
        at_rest(w),
        no_begin(inputs),
    ensures
        at_rest(after(w, inputs)),
        !(asr_service::wants(after(w, inputs)) is Transcribe),
    decreases inputs.len(),
{
    if inputs.len() > 0 {
        lemma_no_begin(inputs);
        law_no_partial_after_release(w, inputs.drop_last());
    }
}

/// An open stream stays open without a final event, or it is closed by exactly
/// one; or the utterance is cancelled, a new one takes its place or the worker is shut
/// down, and it has none. Where no stream is open there is none.
pub proof fn law_one_final_per_utterance(w: WorkerView, i: InputView)
    ensures
        ({
            let (v, events) = asr_service::next(w, i);
            &&& open_stream(w.phase) ==> {
                ||| open_stream(v.phase) && finals(events) == 0
                ||| v.phase == Phase::Clearing && finals(events) == 1
                ||| v.phase == Phase::Ended && finals(events) == 0 && i == InputView::Command(
                    CmdView::Shutdown,
                )
                ||| v.phase == Phase::Clearing && finals(events) == 0 && i == InputView::Command(
                    CmdView::Cancel,
                )
                ||| (v.phase == Phase::Creating || v.phase == Phase::Biasing) && finals(events)
                    == 0 && (i matches InputView::Command(CmdView::Begin(_)))
            }
            &&& !open_stream(w.phase) ==> finals(events) == 0
        }),
{
    reveal(Seq::filter);
    let (v, events) = asr_service::next(w, i);
    let f = |e: EventView| e is Final;
    assert(Seq::<EventView>::empty().filter(f) =~= seq![]);
    if events.len() == 1 {
        assert(events =~= seq![events[0]]);
        assert(events.drop_last() =~= seq![]);
        assert(events.drop_last().filter(f) =~= seq![]);
    } else if events.len() == 2 {
        assert(events.drop_last() =~= seq![events[0]]);
        assert(events.drop_last().drop_last() =~= seq![]);
        assert(events.drop_last().drop_last().filter(f) =~= seq![]);
        assert(events.drop_last().filter(f) =~= seq![]);
    } else {
        assert(events =~= seq![]);
    }
}

/// From the release on, whatever the drains and the transcription answer, the
/// utterance ends in its final event. The time since the release is what was
/// spent waiting for the running call and what was spent draining.
pub proof fn law_release_ends_in_a_final(
    w: WorkerView,
    at: Option<u64>,
    caught: u64,
    first: Option<Seq<char>>,
    drained: u64,
    second: Option<Seq<char>>,
    topped: u64,
    heard: Result<Seq<Line>, Seq<char>>,
    done: u64,
)
    requires
        w.phase == Phase::Releasing,
    ensures
        ({
            let released = match at {
                Some(t) => t,
                None => caught,
            };
            let w1 = asr_service::next(
                w,
                InputView::Released {
                    at: match at {
                        Some(t) => Some(t as int),
                        None => None,
                    },
                    now: caught as int,
                },
            ).0;
            let w2 = asr_service::next(
                w1,
                InputView::Drained { error: first, now: drained as int },
            ).0;
            let w3 = if w2.phase is Waiting {
                asr_service::next(
                    asr_service::next(w2, InputView::Rested).0,
                    InputView::Drained { error: second, now: topped as int },
                ).0
            } else {
                w2
            };
            let (w4, events) = asr_service::next(
                w3,
                InputView::Heard { lines: heard, now: done as int },
            );
            let end = asr_service::finished(
                w.number,
                match heard {
                    Ok(l) => l,
                    Err(_) => seq![],
                },
                released as int,
                asr_service::since(released as int, caught as int),
                caught as int,
                done as int,
            );
            &&& w4.phase == Phase::Clearing
            &&& events.last() == end
            &&& released <= caught <= done ==> end->total == end->wait_for_inflight + end->drain
        }),
{
}

/// The worker waits for the tail of the utterance exactly until the tail is
/// over.
pub proof fn law_tail_is_waited_out(w: WorkerView, error: Option<Seq<char>>, now: u64)
    requires
        w.phase is Catching,
    ensures
        ({
            let left = w.phase->Catching_released + w.config.release_tail_ms * 1_000_000 - now;
            let v = asr_service::next(w, InputView::Drained { error, now: now as int }).0;
            &&& left > 0 ==> asr_service::wants(v) == ActionView::WaitFor(left)
            &&& left <= 0 ==> asr_service::wants(v) == ActionView::Finish
        }),
{
}

/// An utterance keeps its knobs to its end: while its stream is open they change only
/// with the command to begin the next one, which drops it, and no terms are set.
pub proof fn law_config_waits_for_the_utterance(w: WorkerView, i: InputView)
    requires
        open_stream(w.phase),
    ensures
        asr_service::next(w, i).0.config != w.config ==> (i matches InputView::Command(
            CmdView::Begin(_),
        )),
        !(asr_service::wants(w) is SetKeyterms),
{
}

/// A command that the worker reads at this input, if it reads one: it does so while no
/// utterance is under way, and where it polls during one.
pub open spec fn command_read(w: WorkerView, i: InputView) -> Option<CmdView> {
    match i {
        InputView::Command(c) => if w.phase == Phase::Idle || w.phase == Phase::Polling {
            Some(c)
        } else {
            None
        },
        _ => None,
    }
}

/// The knobs that were read last over a list of inputs, or those that the worker had.
pub open spec fn last_config(w: WorkerView, inputs: Seq<InputView>) -> Config
    decreases inputs.len(),
{
    if inputs.len() == 0 {
        w.config
    } else {
        match command_read(after(w, inputs.drop_last()), inputs.last()) {
            Some(CmdView::SetConfig(c)) => c,
            _ => last_config(w, inputs.drop_last()),
        }
    }
}

/// The terms that were read over a list of inputs, in the order in which they came.
pub open spec fn terms_read(w: WorkerView, inputs: Seq<InputView>) -> Seq<Seq<char>>
    decreases inputs.len(),
{
    if inputs.len() == 0 {
        seq![]
    } else {
        let before = terms_read(w, inputs.drop_last());
        match command_read(after(w, inputs.drop_last()), inputs.last()) {
            Some(CmdView::SetKeyterms(t)) => before.push(t),
            _ => before,
        }
    }
}

/// The terms that the recogniser was biased towards over a list of inputs, in the order
/// in which that was done.
pub open spec fn terms_set(w: WorkerView, inputs: Seq<InputView>) -> Seq<Seq<char>>
    decreases inputs.len(),
{
    if inputs.len() == 0 {
        seq![]
    } else {
        let before = terms_set(w, inputs.drop_last());
        match (asr_service::wants(after(w, inputs.drop_last())), inputs.last()) {
            (ActionView::SetKeyterms(t), InputView::Biased(_)) => before.push(t),
            _ => before,
        }
    }
}

/// No utterance is under way, or one is just being begun.
pub open spec fn before_the_stream(p: Phase) -> bool {
    p == Phase::Idle || p == Phase::Biasing || p == Phase::Creating || p == Phase::Starting
}

/// What holds of a worker whatever has come since it was made.
spec fn steady(w: WorkerView) -> bool {
    &&& before_the_stream(w.phase) ==> w.waiting_config is None
    &&& w.phase == Phase::Biasing ==> w.waiting_terms.len() > 0
    &&& before_the_stream(w.phase) && w.phase != Phase::Biasing ==> w.waiting_terms.len() == 0
    &&& w.beginning ==> w.phase == Phase::Biasing
}

proof fn lemma_steady(c: Config, inputs: Seq<InputView>)
    ensures
        ({
            let v = after(asr_service::fresh(c), inputs);
            &&& steady(v)
            &&& last_config(asr_service::fresh(c), inputs) == match v.waiting_config {
                Some(w) => w,
                None => v.config,
            }
            &&& terms_read(asr_service::fresh(c), inputs) == terms_set(
                asr_service::fresh(c),
                inputs,
            ) + v.waiting_terms
        }),
    decreases inputs.len(),
{
    let w = asr_service::fresh(c);
    if inputs.len() == 0 {
        assert(terms_read(w, inputs) =~= terms_set(w, inputs) + w.waiting_terms);
    } else {
        lemma_steady(c, inputs.drop_last());
        assert(terms_read(w, inputs) =~= terms_set(w, inputs) + after(w, inputs).waiting_terms);
    }
}

/// A change of the knobs governs the next utterance and all later ones. Whatever a worker
/// has been told since it was made, between two utterances and while one is begun nothing
/// waits, and the knobs in force are those that were read last; an utterance is begun only
/// when all terms that were read have been set.
pub proof fn law_changes_govern_the_next_utterance(c: Config, inputs: Seq<InputView>)
    ensures
        ({
            let v = after(asr_service::fresh(c), inputs);
            &&& before_the_stream(v.phase) ==> v.waiting_config is None && v.config
                == last_config(asr_service::fresh(c), inputs)
            &&& v.phase == Phase::Idle || v.phase == Phase::Creating || v.phase
                == Phase::Starting ==> v.waiting_terms.len() == 0
        }),
{
    lemma_steady(c, inputs);
}

/// An utterance that has been begun runs under the knobs that were read last before: from
/// the moment that its stream is asked for until it is over or another is begun, whatever
/// knobs come meanwhile.
pub proof fn law_utterance_keeps_its_knobs(
    c: Config,
    earlier: Seq<InputView>,
    during: Seq<InputView>,
)
    requires
        after(asr_service::fresh(c), earlier).phase == Phase::Creating,
        forall|k: int|
            0 <= k <= during.len() ==> in_utterance(
                after(after(asr_service::fresh(c), earlier), #[trigger] during.take(k)).phase,
            ),
        no_begin(during),
    ensures
        after(after(asr_service::fresh(c), earlier), during).config == last_config(
            asr_service::fresh(c),
            earlier,
        ),
{
    lemma_steady(c, earlier);
    lemma_knobs_kept(after(asr_service::fresh(c), earlier), during);
}

/// An utterance is under way or is being begun.
pub open spec fn in_utterance(p: Phase) -> bool {
    p == Phase::Creating || p == Phase::Starting || open_stream(p)
}

proof fn lemma_knobs_kept(w: WorkerView, during: Seq<InputView>)
    requires
        w.phase == Phase::Creating,
        w.waiting_config is None,
        forall|k: int|
            0 <= k <= during.len() ==> in_utterance(after(w, #[trigger] during.take(k)).phase),
        no_begin(during),
    ensures
        ({
            let v = after(w, during);
            &&& v.config == w.config
            &&& v.phase == Phase::Creating || v.phase == Phase::Starting ==> v.waiting_config
                is None
        }),
    decreases during.len(),
{
    if during.len() > 0 {
        let fewer = during.drop_last();
        assert forall|k: int| 0 <= k <= fewer.len() implies in_utterance(
            after(w, #[trigger] fewer.take(k)).phase,
        ) by {
            assert(fewer.take(k) =~= during.take(k));
        }
        lemma_no_begin(during);
        lemma_knobs_kept(w, fewer);
        assert(during.take(during.len() as int) =~= during);
        assert(fewer.take(fewer.len() as int) =~= fewer);
    }
}

/// The terms that were read are set one by one in the order in which they came, and none
/// is lost: those that are not set yet are those that wait.
pub proof fn law_terms_are_set_in_order(c: Config, inputs: Seq<InputView>)
    ensures
        terms_read(asr_service::fresh(c), inputs) == terms_set(asr_service::fresh(c), inputs)
            + after(asr_service::fresh(c), inputs).waiting_terms,
{
    lemma_steady(c, inputs);
}

/// A release and a cancel are passed over while there is no utterance.
pub proof fn law_stray_commands_are_passed_over(w: WorkerView)
    requires
        w.phase == Phase::Idle,
    ensures
        asr_service::next(w, InputView::Command(CmdView::Release)) == (
            w,
            Seq::<EventView>::empty(),
        ),
        asr_service::next(w, InputView::Command(CmdView::Cancel)) == (
            w,
            Seq::<EventView>::empty(),
        ),
{
}

/// What was heard carries the number of the utterance that was begun last: until the
/// next one is begun, every partial and every final event holds the number of this one.
pub proof fn law_events_carry_their_number(
    w: WorkerView,
    n: u64,
    inputs: Seq<InputView>,
    k: int,
)
    requires
        w.phase == Phase::Idle || w.phase == Phase::Polling,
        no_begin(inputs),
        0 <= k < said(asr_service::next(w, InputView::Command(CmdView::Begin(n))).0, inputs).len(),
    ensures
        of_utterance(
            said(asr_service::next(w, InputView::Command(CmdView::Begin(n))).0, inputs)[k],
        ) matches Some(m) ==> m == n,
{
    lemma_numbered(asr_service::next(w, InputView::Command(CmdView::Begin(n))).0, inputs, k);
}

proof fn lemma_numbered(w: WorkerView, inputs: Seq<InputView>, k: int)
    requires
        no_begin(inputs),
    ensures
        after(w, inputs).number == w.number,
        0 <= k < said(w, inputs).len() ==> (of_utterance(said(w, inputs)[k]) matches Some(m)
            ==> m == w.number),
    decreases inputs.len(),
{
    if inputs.len() > 0 {
        lemma_no_begin(inputs);
        lemma_numbered(w, inputs.drop_last(), k);
        let v = after(w, inputs.drop_last());
        let events = asr_service::next(v, inputs.last()).1;
        let before = said(w, inputs.drop_last());
        assert(said(w, inputs) == before + events);
        if before.len() <= k < said(w, inputs).len() {
            assert(said(w, inputs)[k] == events[k - before.len()]);
            assert(events.len() <= 2);
        }
    }
}

/// A cancelled utterance is heard no more: from the moment that the command is read
/// until a new utterance is begun, there is neither a partial nor a final event.
pub proof fn law_cancelled_is_silent(w: WorkerView, inputs: Seq<InputView>, k: int)
    requires
        w.phase == Phase::Polling,
        !w.beginning,
        no_begin(inputs),
        0 <= k < said(
            asr_service::next(w, InputView::Command(CmdView::Cancel)).0,
            inputs,
        ).len(),
    ensures
        of_utterance(
            said(asr_service::next(w, InputView::Command(CmdView::Cancel)).0, inputs)[k],
        ) is None,
{
    lemma_silent(asr_service::next(w, InputView::Command(CmdView::Cancel)).0, inputs, k);
}

/// No utterance is under way.
spec fn without_utterance(w: WorkerView) -> bool {
    &&& !w.beginning
    &&& w.phase == Phase::Clearing || w.phase == Phase::Idle || w.phase == Phase::Biasing
        || w.phase == Phase::Ended
}

proof fn lemma_silent(w: WorkerView, inputs: Seq<InputView>, k: int)
    requires
        without_utterance(w),
        no_begin(inputs),
    ensures
        without_utterance(after(w, inputs)),
        0 <= k < said(w, inputs).len() ==> of_utterance(said(w, inputs)[k]) is None,
    decreases inputs.len(),
{
    if inputs.len() > 0 {
        lemma_no_begin(inputs);
        lemma_silent(w, inputs.drop_last(), k);
        let v = after(w, inputs.drop_last());
        let events = asr_service::next(v, inputs.last()).1;
        let before = said(w, inputs.drop_last());
        assert(said(w, inputs) == before + events);
        if before.len() <= k < said(w, inputs).len() {
            assert(said(w, inputs)[k] == events[k - before.len()]);
            assert(events.len() <= 1);
        }
    }
}

} // verus!
