//! What holds of a dictation from end to end.

use vstd::prelude::*;
use crate::overlay_model::OverlayState;
use crate::session;
use crate::session::{Desktop, EffectView};
use crate::settings::InsertionView;
use crate::target_app;
use crate::trace::Utterance;
use crate::words;

verus! {

/// No line break reaches a shell prompt, on either desktop and whatever was
/// dictated: it would be the Enter key, and run what was said.
pub proof fn law_prompt_is_never_entered(
    desktop: Desktop,
    exe: Seq<char>,
    i: InsertionView,
    text: Seq<char>,
)
    requires
        session::terminal_on(desktop, exe, i),
        forall|k: int|
            0 <= k < i.terminal_newline_replacement.len() ==> !target_app::line_break(
                #[trigger] i.terminal_newline_replacement[k],
            ),
    ensures
        forall|k: int|
            0 <= k < session::aimed_text(desktop, exe, i, text).len() ==> !target_app::line_break(
                #[trigger] session::aimed_text(desktop, exe, i, text)[k],
            ),
{
    target_app::law_no_line_break_reaches_a_prompt(text, i.terminal_newline_replacement);
}

/// A document gets the text as it was formatted, line breaks included.
pub proof fn law_documents_get_the_text_as_it_is(
    desktop: Desktop,
    exe: Seq<char>,
    i: InsertionView,
    text: Seq<char>,
)
    requires
        !session::terminal_on(desktop, exe, i),
    ensures
        session::aimed_text(desktop, exe, i, text) == text,
        session::aimed_mode(desktop, exe, i) == session::mode_on(desktop, i.mode),
{
}

/// Unless it was asked for, what is said of a dictation does not depend on what
/// was dictated but only on how long it is.
pub proof fn law_only_the_length_is_said(one: Seq<char>, other: Seq<char>, waited: Seq<char>)
    requires
        words::trim(one).len() == words::trim(other).len(),
    ensures
        session::outcome(one, waited, false) == session::outcome(other, waited, false),
{
}

/// An utterance after hypotheses that came at these times.
pub open spec fn heard_all(u: Option<Utterance>, times: Seq<i64>) -> Option<Utterance>
    decreases times.len(),
{
    if times.len() == 0 {
        u
    } else {
        session::heard(heard_all(u, times.drop_last()), times.last())
    }
}

proof fn lemma_heard_all(u: Option<Utterance>, times: Seq<i64>)
    ensures
        u is None ==> heard_all(u, times) is None,
        u matches Some(a) ==> (heard_all(u, times) matches Some(b) && a == (Utterance {
            t6_first_partial: a.t6_first_partial,
            ..b
        })),
    decreases times.len(),
{
    if times.len() > 0 {
        lemma_heard_all(u, times.drop_last());
    }
}

/// Hold a key, talk, let go, and the text is there: whatever hypotheses came in
/// between, the final transcript of an utterance that was armed is taken, and its trace
/// holds when the key went down, when the microphone ran, when the key came up and when
/// the transcript was there.
pub proof fn law_what_was_said_arrives(
    number: u64,
    u: Utterance,
    begun: i64,
    armed: i64,
    reset_us: u32,
    start_us: u32,
    partials: Seq<i64>,
    up: i64,
    first_packet: i64,
    peak_milli: u32,
    text: Seq<char>,
    done: i64,
)
    requires
        session::armed_as(u, begun, armed, reset_us, start_us),
    ensures
        session::finished(
            session::heeded(
                session::let_go(heard_all(Some(u), partials), up, first_packet, peak_milli),
                number,
                number,
            ),
            text,
            done,
        ) matches Some((said, t)) && said == text && t.t0_hotkey_down == begun && t.t0b_armed
            == armed && t.t7_hotkey_up == up && t.t9_final_ready == done && t.t1_first_packet
            == first_packet && t.peak_milli == peak_milli,
{
    lemma_heard_all(Some(u), partials);
}

/// The number of the utterance that is begun after so many more.
pub open spec fn number_in(n: u64, more: nat) -> u64
    decreases more,
{
    if more == 0 {
        n
    } else {
        session::number_after(number_in(n, (more - 1) as nat))
    }
}

proof fn lemma_number_in(n: u64, more: nat)
    requires
        more <= u64::MAX,
    ensures
        number_in(n, more) == if n + more <= u64::MAX {
            n + more
        } else {
            n + more - u64::MAX - 1
        },
    decreases more,
{
    if more > 0 {
        lemma_number_in(n, (more - 1) as nat);
    }
}

/// Two utterances have two numbers, unless all the numbers were given out in between.
pub proof fn law_numbers_tell_utterances_apart(n: u64, more: nat)
    requires
        0 < more <= u64::MAX,
    ensures
        number_in(n, more) != n,
{
    lemma_number_in(n, more);
}

/// A dictation that was cancelled is never inserted. While none is under way no
/// transcript is taken, whatever the recogniser still says and whenever the key comes
/// up; and once the key has gone down again, however often, the transcript that belongs
/// to the cancelled one is not taken for the new one.
pub proof fn law_what_was_cancelled_is_dropped(
    number: u64,
    before: Seq<i64>,
    up: i64,
    first_packet: i64,
    peak_milli: u32,
    after: Seq<i64>,
    text: Seq<char>,
    done: i64,
    more: nat,
    next: Option<Utterance>,
)
    requires
        0 < more <= u64::MAX,
    ensures
        session::finished(
            session::heeded(heard_all(None, before), number, number),
            text,
            done,
        ) is None,
        session::finished(
            session::heeded(
                heard_all(
                    session::let_go(heard_all(None, before), up, first_packet, peak_milli),
                    after,
                ),
                number,
                number,
            ),
            text,
            done,
        ) is None,
        session::finished(
            session::heeded(next, number_in(number, more), number),
            text,
            done,
        ) is None,
{
    lemma_heard_all(None, before);
    lemma_heard_all(None, after);
    law_numbers_tell_utterances_apart(number, more);
}

/// A text that could not be inserted is not confirmed, and one that was is not
/// complained of.
pub proof fn law_confirmed_only_when_inserted(
    text: Seq<char>,
    failed: Option<Seq<char>>,
    waited: Seq<char>,
    echo: bool,
    e: EffectView,
)
    requires
        session::after_insertion(text, failed, waited, echo).contains(e),
    ensures
        failed is Some ==> !(e is Say) && !(e matches EffectView::Overlay(s, _) && s
            == OverlayState::Done),
        failed is None ==> !(e is Complain) && !(e matches EffectView::Overlay(s, _) && s
            == OverlayState::Error),
{
}

/// The same terms that bias the recogniser are the written forms that correct it.
pub proof fn law_terms_are_the_written_forms(
    entries: Seq<(Seq<char>, Seq<char>)>,
    e: (Seq<char>, Seq<char>),
)
    requires
        entries.contains(e),
    ensures
        crate::format::longest_first(crate::format::lowered(entries)).map_values(
            |p: (Seq<char>, Seq<char>)| p.1,
        ).contains(e.1),
{
    broadcast use vstd::seq_lib::group_to_multiset_ensures;

    let low = crate::format::lowered(entries);
    let sorted = crate::format::longest_first(low);
    crate::format::law_longest_first(low, 0);
    let i = entries.index_of(e);
    assert(entries[i] == e);
    let l = low[i];
    assert(l.1 == e.1);
    assert(low.contains(l));
    assert(sorted.to_multiset().count(l) > 0);
    assert(sorted.contains(l));
    let k = sorted.index_of(l);
    let terms = sorted.map_values(|p: (Seq<char>, Seq<char>)| p.1);
    assert(terms[k] == e.1);
}

} // verus!
