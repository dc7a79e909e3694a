//! What every attempt of the engine keeps to, from its start to its end.

use crate::bt;
use crate::engine::{self, ActionView, EngineView, EventView, Phase, ProgressView};
use crate::tiers::{self, StepView};
use vstd::prelude::*;

verus! {

/// The engine after the given events, and all that it asked for, in order. The
/// first action stands before the first event.
pub open spec fn attempt(mac: Seq<char>, events: Seq<EventView>) -> (EngineView, Seq<ActionView>)
    decreases events.len(),
{
    if events.len() == 0 {
        (engine::start(mac), seq![engine::check(mac)])
    } else {
        let before = attempt(mac, events.drop_last());
        let (s, a) = engine::next(before.0, events.last());
        (s, before.1.push(a))
    }
}

/// Whether each event came when the engine could take it.
pub open spec fn orderly(mac: Seq<char>, events: Seq<EventView>) -> bool
    decreases events.len(),
{
    events.len() == 0 || (orderly(mac, events.drop_last()) && engine::accepts(
        attempt(mac, events.drop_last()).0,
        events.last(),
    ))
}

/// A word that ends an attempt.
pub open spec fn is_last_word(a: ActionView) -> bool {
    ||| a is AnnounceElapsed
    ||| a is Announce && a->Announce_0 is Connected
    ||| a is Announce && a->Announce_0 is GaveUp
}

/// The engine waits for what its last action brings.
pub proof fn law_answers_fit(s: EngineView, e: EventView, answer: EventView)
    requires
        engine::sound(s),
        engine::accepts(s, e),
    ensures
        engine::answers(engine::next(s, e).1, answer) == engine::fits(
            engine::next(s, e).0.phase,
            answer,
        ),
{
    engine::lemma_stays_sound(s, e);
}

/// An attempt keeps the engine sound, keeps to its device, and asks for one
/// action per event.
pub proof fn law_attempt_is_sound(mac: Seq<char>, events: Seq<EventView>)
    requires
        orderly(mac, events),
    ensures
        engine::sound(attempt(mac, events).0),
        attempt(mac, events).0.mac == mac,
        attempt(mac, events).1.len() == events.len() + 1,
    decreases events.len(),
{
    if events.len() > 0 {
        law_attempt_is_sound(mac, events.drop_last());
        engine::lemma_stays_sound(attempt(mac, events.drop_last()).0, events.last());
    }
}

/// Being over: the last word has been spoken.
pub open spec fn is_over(phase: Phase) -> bool {
    ||| phase is AlreadyUp
    ||| phase is Announced
    ||| phase is Finished
}

/// An attempt ends with its last word: nothing follows it, and so there is only
/// one.
pub proof fn law_one_last_word(mac: Seq<char>, events: Seq<EventView>)
    requires
        orderly(mac, events),
    ensures
        ({
            let (s, acts) = attempt(mac, events);
            &&& is_over(s.phase) <==> exists|i: int|
                0 <= i < acts.len() && is_last_word(#[trigger] acts[i])
            &&& forall|i: int, j: int|
                0 <= i < j < acts.len() && is_last_word(#[trigger] acts[i]) ==> #[trigger] acts[j]
                    is Finish
        }),
    decreases events.len(),
{
    law_attempt_is_sound(mac, events);
    if events.len() > 0 {
        let before = attempt(mac, events.drop_last());
        let e = events.last();
        law_attempt_is_sound(mac, events.drop_last());
        law_one_last_word(mac, events.drop_last());
        let (s, a) = engine::next(before.0, e);
        let acts = before.1.push(a);
        assert(acts[acts.len() - 1] == a);
        assert(forall|i: int| 0 <= i < before.1.len() ==> acts[i] == before.1[i]);
        if is_over(before.0.phase) {
            assert(a is Finish);
            let w = choose|i: int| 0 <= i < before.1.len() && is_last_word(#[trigger] before.1[i]);
            assert(is_last_word(acts[w]));
        } else {
            assert(is_over(s.phase) <==> is_last_word(a));
            if is_last_word(a) {
                assert(is_last_word(acts[acts.len() - 1]));
            }
        }
    }
}

/// The last word is what the last look at the device showed.
pub proof fn law_last_word_is_true(s: EngineView, e: EventView)
    requires
        engine::sound(s),
        engine::accepts(s, e),
    ensures
        engine::next(s, e).1 is AnnounceElapsed ==> bt::link_up(e->Output_0),
        engine::next(s, e).1 == ActionView::Announce(ProgressView::GaveUp) ==> !bt::link_up(
            e->Output_0,
        ),
        engine::next(s, e).1 is Announce && engine::next(s, e).1->Announce_0 is Connected
            ==> bt::link_up(e->Output_0),
{
}

/// A device that is up from the start is left alone: the engine says so and is
/// done, and starts nothing.
pub proof fn law_connected_device_is_left_alone(mac: Seq<char>, events: Seq<EventView>, k: int)
    requires
        orderly(mac, events),
        events.len() > 0,
        bt::link_up(events[0]->Output_0),
        0 <= k <= events.len(),
    ensures
        attempt(mac, events).1[0] == engine::check(mac),
        k == 1 ==> attempt(mac, events).1[k] == ActionView::Announce(
            ProgressView::Connected("0.0"@),
        ),
        k > 1 ==> attempt(mac, events).1[k] is Finish,
    decreases events.len(),
{
    law_attempt_is_sound(mac, events);
    let before = events.drop_last();
    law_attempt_is_sound(mac, before);
    if events.len() == 1 {
        assert(attempt(mac, before).0 == engine::start(mac));
    } else {
        assert(before[0] == events[0]);
        law_connected_device_is_left_alone(mac, before, if k < events.len() {
            k
        } else {
            1
        });
        law_connected_device_is_left_alone(mac, before, 0);
        law_one_last_word(mac, before);
        law_connected_device_is_left_alone(mac, before, 1);
        assert(is_last_word(attempt(mac, before).1[1]));
    }
}

/// Where the attempt stands at its end, in terms of what it asked for last.
pub open spec fn closes(phase: Phase, mac: Seq<char>, acts: Seq<ActionView>) -> bool {
    let n = acts.len() as int;
    &&& phase is Closing ==> n >= 1 && acts[n - 1] is StoreStop
    &&& phase is Joining ==> n >= 2 && acts[n - 2] is StoreStop && acts[n - 1] is JoinSpammer
    &&& phase is LastCheck ==> n >= 3 && acts[n - 3] is StoreStop && acts[n - 2] is JoinSpammer
        && acts[n - 1] == engine::check(mac)
    &&& phase is Announced ==> n >= 4 && acts[n - 4] is StoreStop && acts[n - 3] is JoinSpammer
        && acts[n - 2] == engine::check(mac) && is_last_word(acts[n - 1])
}

/// Once the background connector runs, no last word is spoken before the stop
/// flag is set, the connector has ended, and the device has been looked at once
/// more.
pub proof fn law_connector_ends_first(mac: Seq<char>, events: Seq<EventView>)
    requires
        orderly(mac, events),
    ensures
        closes(attempt(mac, events).0.phase, mac, attempt(mac, events).1),
    decreases events.len(),
{
    law_attempt_is_sound(mac, events);
    if events.len() > 0 {
        let before = attempt(mac, events.drop_last());
        law_attempt_is_sound(mac, events.drop_last());
        law_connector_ends_first(mac, events.drop_last());
        let acts = attempt(mac, events).1;
        let n = before.1.len() as int;
        assert(forall|i: int| 0 <= i < n ==> acts[i] == before.1[i]);
        assert(acts.len() == n + 1);
    }
}

/// The line with which a tier begins.
pub open spec fn tier_begins(s: EngineView) -> ActionView {
    ActionView::Announce(ProgressView::Log(engine::tier_line(s.round, s.tier)))
}

/// A tier begins only where the stop flag was just read as not set and the
/// device was just seen down.
pub proof fn law_no_intervention_without_need(mac: Seq<char>, events: Seq<EventView>)
    requires
        orderly(mac, events),
        attempt(mac, events).0.phase is TierAnnounced,
    ensures
        events.len() >= 2,
        !bt::link_up(events.last()->Output_0),
        events[events.len() - 2] == EventView::Stop(false),
        attempt(mac, events).1.last() == tier_begins(attempt(mac, events).0),
{
    reveal_with_fuel(orderly, 3);
    reveal_with_fuel(attempt, 3);
    law_attempt_is_sound(mac, events);
    let e1 = events.drop_last();
    law_attempt_is_sound(mac, e1);
    assert(attempt(mac, e1).0.phase is TierCheck);
    assert(e1.len() > 0);
    let e2 = e1.drop_last();
    law_attempt_is_sound(mac, e2);
    assert(attempt(mac, e2).0.phase is TierGate);
    assert(e1.last() == events[events.len() - 2]);
}

/// The ladder is climbed one tier at a time, from the lightest, and begins anew
/// only with a new round.
pub proof fn law_ladder_is_climbed_in_order(s: EngineView, e: EventView)
    requires
        engine::sound(s),
        engine::accepts(s, e),
    ensures
        ({
            let t = engine::next(s, e).0;
            ||| t.round == s.round && t.tier == s.tier
            ||| t.round == s.round && t.tier == s.tier + 1 && s.phase is WaitClock
            ||| t.round == s.round + 1 && t.tier == 0 && s.phase is RoundGate
        }),
{
}

/// Once the stop flag has been read as set before a round, the engine only
/// closes: it sets the flag, waits for the connector, looks once more and says
/// how it went.
pub proof fn law_stop_ends_the_attempt(s: EngineView)
    requires
        engine::sound(s),
        s.phase is RoundGate,
    ensures
        ({
            let a = engine::next(s, EventView::Stop(true));
            let b = engine::next(a.0, EventView::Done);
            let c = engine::next(b.0, EventView::Done);
            &&& a.1 is StoreStop
            &&& b.1 is JoinSpammer
            &&& c.1 == engine::check(s.mac)
            &&& forall|out: Seq<char>|
                is_last_word((#[trigger] engine::next(c.0, EventView::Output(out))).1)
        }),
{
}

/// Where the stop flag is read as set, or the device is seen up, the engine
/// leaves the ladder at once. Where the device is seen up before a tier, it sets
/// the flag and closes. Else it goes back to the flag, and sets it first where it
/// was waiting for the connection.
pub proof fn law_leaves_the_ladder_at_once(s: EngineView, e: EventView)
    requires
        engine::sound(s),
        engine::accepts(s, e),
        s.phase is TierGate || s.phase is TierCheck || s.phase is WaitFlag || s.phase is WaitCheck,
        e == EventView::Stop(true) || (e is Output && bt::link_up(e->Output_0)),
    ensures
        ({
            let t = engine::next(s, e);
            &&& s.phase is TierCheck ==> t.0.phase is Closing && t.1 is StoreStop
            &&& s.phase is TierGate ==> t.0.phase is RoundGate && t.1 is LoadStop
            &&& s.phase is WaitFlag || s.phase is WaitCheck ==> t.0.phase is WaitStore && t.1
                is StoreStop && engine::next(t.0, EventView::Done).1 is LoadStop
        }),
{
}

/// How many events a step can take.
pub open spec fn cost(s: StepView) -> nat {
    match s {
        StepView::AwaitAdapter { tries, .. } => (3 * tries) as nat,
        StepView::AwaitListed { tries, .. } => (3 * tries) as nat,
        _ => 1,
    }
}

/// How many events the steps from `at` on can take.
pub open spec fn work_left(script: Seq<StepView>, at: int) -> nat
    decreases script.len() - at,
{
    if at < 0 || at >= script.len() {
        0
    } else {
        cost(script[at]) + work_left(script, at + 1)
    }
}

/// How many events the current tier can still take.
pub open spec fn tier_left(s: EngineView) -> int {
    let later = work_left(s.script, s.at + 1) as int;
    if s.phase is PollAdapter || s.phase is PollListed {
        later + 3 * (engine::tries(s) - s.polls)
    } else if s.phase is PollList {
        later + 3 * (engine::tries(s) - s.polls) - 1
    } else if s.phase is PollPause {
        later + 3 * (engine::tries(s) - s.polls) - 2
    } else {
        later + 1
    }
}

/// Beginning a step takes no more than the work that is left from it on.
proof fn lemma_work_on(s: EngineView, at: int)
    requires
        0 <= at <= s.script.len(),
        forall|i: int| 0 <= i < s.script.len() ==> tiers::looks(#[trigger] s.script[i]),
    ensures
        ({
            let t = engine::work_on(s, at).0;
            ||| t.phase is WaitBegin
            ||| engine::in_script(t.phase) && tier_left(t) == work_left(s.script, at)
        }),
{
    if at < s.script.len() {
        assert(tiers::looks(s.script[at]));
    }
}

/// Every tier comes to its end: each event brings it closer, whatever the
/// commands print and whether or not what it looks for turns up.
pub proof fn law_tiers_end(s: EngineView, e: EventView)
    requires
        engine::sound(s),
        engine::accepts(s, e),
        engine::in_script(s.phase),
    ensures
        tier_left(s) > 0,
        ({
            let t = engine::next(s, e).0;
            ||| t.phase is WaitBegin
            ||| engine::in_script(t.phase) && 0 < tier_left(t) < tier_left(s)
        }),
{
    engine::lemma_stays_sound(s, e);
    lemma_work_on(s, s.at + 1);
    let t = engine::next(s, e).0;
    if engine::in_script(t.phase) && t.at == s.at + 1 {
        assert(work_left(s.script, s.at + 1) == cost(s.script[s.at + 1]) + work_left(
            s.script,
            s.at + 2,
        ));
    }
}

/// How an attempt opens where the device is not up: the background connector is
/// started, and the stack is made cooperative, which includes trusting the
/// device.
pub open spec fn opening(mac: Seq<char>) -> Seq<ActionView> {
    seq![
        engine::check(mac),
        ActionView::StartSpammer,
        ActionView::Run(engine::prep_commands(mac)[0]),
        ActionView::Run(engine::prep_commands(mac)[1]),
        ActionView::Run(engine::prep_commands(mac)[2]),
        ActionView::Run(engine::prep_commands(mac)[3]),
        ActionView::Announce(ProgressView::Log("prep: powered on, agent ready, trusted"@)),
    ]
}

/// What the engine waits for after so many events of the opening.
spec fn opening_phase(n: int) -> Phase {
    if n == 0 {
        Phase::FirstCheck
    } else if n == 1 {
        Phase::Spawning
    } else if n < 6 {
        Phase::Prep((n - 2) as usize)
    } else {
        Phase::Prepared
    }
}

/// An attempt for a device that is not up opens in the same way every time.
pub proof fn law_opening(mac: Seq<char>, events: Seq<EventView>, k: int)
    requires
        orderly(mac, events),
        events.len() > 0 ==> !bt::link_up(events[0]->Output_0),
        0 <= k <= events.len(),
        k < 7,
    ensures
        attempt(mac, events).1[k] == opening(mac)[k],
{
    lemma_opening(mac, events, k);
}

proof fn lemma_opening(mac: Seq<char>, events: Seq<EventView>, k: int)
    requires
        orderly(mac, events),
        events.len() > 0 ==> !bt::link_up(events[0]->Output_0),
        0 <= k <= events.len(),
        k < 7,
    ensures
        attempt(mac, events).1[k] == opening(mac)[k],
        events.len() < 7 ==> attempt(mac, events).0.phase == opening_phase(events.len() as int),
    decreases events.len(),
{
    law_attempt_is_sound(mac, events);
    if events.len() > 0 {
        let before = events.drop_last();
        law_attempt_is_sound(mac, before);
        if before.len() > 0 {
            assert(before[0] == events[0]);
        }
        lemma_opening(mac, before, if k < events.len() {
            k
        } else {
            0
        });
    }
}

/// There is one background connector for an attempt, and it is started right
/// after the first look at the device.
pub proof fn law_one_connector(mac: Seq<char>, events: Seq<EventView>, k: int)
    requires
        orderly(mac, events),
        0 <= k <= events.len(),
        attempt(mac, events).1[k] is StartSpammer,
    ensures
        k == 1,
    decreases events.len(),
{
    law_attempt_is_sound(mac, events);
    lemma_first_look_is_first(mac, events);
    if events.len() > 0 {
        let before = events.drop_last();
        law_attempt_is_sound(mac, before);
        lemma_first_look_is_first(mac, before);
        if k < events.len() {
            law_one_connector(mac, before, k);
        } else {
            lemma_connector_starts(attempt(mac, before).0, events.last());
        }
    }
}

/// Only the first look leads to the start of the background connector.
proof fn lemma_connector_starts(s: EngineView, e: EventView)
    requires
        engine::sound(s),
        engine::accepts(s, e),
    ensures
        engine::next(s, e).1 is StartSpammer ==> s.phase is FirstCheck,
        !(engine::next(s, e).0.phase is FirstCheck),
{
}

/// The first look at the device is what an attempt begins with, and it does not
/// come again.
proof fn lemma_first_look_is_first(mac: Seq<char>, events: Seq<EventView>)
    requires
        orderly(mac, events),
    ensures
        attempt(mac, events).0.phase is FirstCheck <==> events.len() == 0,
{
    if events.len() > 0 {
        law_attempt_is_sound(mac, events.drop_last());
        lemma_connector_starts(attempt(mac, events.drop_last()).0, events.last());
    }
}

/// Being on the way out.
spec fn is_closing(phase: Phase) -> bool {
    ||| phase is Closing
    ||| phase is Joining
    ||| phase is LastCheck
    ||| phase is Announced
}

/// The engine after the first `k` events.
pub open spec fn state_at(mac: Seq<char>, events: Seq<EventView>, k: int) -> EngineView {
    attempt(mac, events.take(k)).0
}

/// What holds of an attempt holds of its beginning, and what it has asked for
/// does not change.
proof fn lemma_beginning(mac: Seq<char>, events: Seq<EventView>, k: int)
    requires
        orderly(mac, events),
        0 <= k <= events.len(),
    ensures
        orderly(mac, events.take(k)),
        attempt(mac, events.take(k)).1.len() == k + 1,
        forall|m: int|
            0 <= m <= k ==> #[trigger] attempt(mac, events).1[m] == attempt(
                mac,
                events.take(k),
            ).1[m],
    decreases events.len(),
{
    law_attempt_is_sound(mac, events);
    if k == events.len() {
        assert(events.take(k) == events);
    } else {
        let before = events.drop_last();
        law_attempt_is_sound(mac, before);
        lemma_beginning(mac, before, k);
        assert(before.take(k) == events.take(k));
        assert(forall|m: int|
            0 <= m <= k ==> #[trigger] attempt(mac, events).1[m] == attempt(mac, before).1[m]);
    }
}

/// One event of an attempt.
proof fn lemma_one_event(mac: Seq<char>, events: Seq<EventView>, n: int)
    requires
        orderly(mac, events),
        0 <= n < events.len(),
    ensures
        engine::sound(state_at(mac, events, n)),
        state_at(mac, events, n).mac == mac,
        engine::accepts(state_at(mac, events, n), events[n]),
        state_at(mac, events, n + 1) == engine::next(state_at(mac, events, n), events[n]).0,
        attempt(mac, events).1[n + 1] == engine::next(state_at(mac, events, n), events[n]).1,
{
    lemma_beginning(mac, events, n);
    lemma_beginning(mac, events, n + 1);
    law_attempt_is_sound(mac, events.take(n));
    assert(events.take(n + 1).drop_last() == events.take(n));
    assert(events.take(n + 1).last() == events[n]);
}

/// Whether an event shows that an attempt is to end: the stop flag is set, or a
/// look at the device finds it up.
pub open spec fn calls_for_the_end(s: EngineView, e: EventView) -> bool {
    ||| e == EventView::Stop(true)
    ||| {
        &&& s.phase is FirstCheck || s.phase is TierCheck || s.phase is WaitCheck
            || s.phase is LastCheck
        &&& e is Output
        &&& bt::link_up(e->Output_0)
    }
}

/// Whether the stop flag has been set by the event of that number, by the engine
/// or by anyone else, as far as the engine knows.
pub open spec fn flag_is_set(mac: Seq<char>, events: Seq<EventView>, i: int) -> bool {
    events[i] == EventView::Stop(true) || attempt(mac, events).1[i] is StoreStop
}

/// Whether the stop flag, once set, is read as set. Nothing clears it during an
/// attempt.
pub open spec fn steady(mac: Seq<char>, events: Seq<EventView>) -> bool {
    forall|i: int, j: int|
        0 <= i < j < events.len() && #[trigger] flag_is_set(mac, events, i)
            && #[trigger] events[j] is Stop ==> events[j] == EventView::Stop(true)
}

/// What the engine may still ask for once an attempt is to end: all of it closes
/// the attempt, and all that the user is told is the last word.
pub open spec fn only_closes(mac: Seq<char>, a: ActionView) -> bool {
    ||| a is LoadStop
    ||| a is StoreStop
    ||| a is JoinSpammer
    ||| a == engine::check(mac)
    ||| is_last_word(a)
    ||| a is Finish
}

/// Whether an action adds a line to the log.
pub open spec fn is_log(a: ActionView) -> bool {
    a is Announce && a->Announce_0 is Log
}

/// Having left the ladder for good.
spec fn is_leaving(phase: Phase) -> bool {
    is_closing(phase) || is_over(phase)
}

/// The attempt stops the instant it is to end: from the event that shows it on,
/// no tier begins, nothing is logged, and nothing is asked for but what closes
/// the attempt. Where a look finds the device up before a tier or after one, the
/// stop flag is set first. A look before a tier needs no word of the flag; for the
/// others it is enough that a flag that has been set is read as set.
pub proof fn law_stops_at_once(mac: Seq<char>, events: Seq<EventView>, k: int, j: int)
    requires
        orderly(mac, events),
        0 <= k < j <= events.len(),
        calls_for_the_end(state_at(mac, events, k), events[k]),
        state_at(mac, events, k).phase is TierCheck || steady(mac, events),
    ensures
        only_closes(mac, attempt(mac, events).1[j]),
        !is_log(attempt(mac, events).1[j]),
        j == k + 1 && (state_at(mac, events, k).phase is TierCheck || state_at(
            mac,
            events,
            k,
        ).phase is WaitCheck) ==> attempt(mac, events).1[j] is StoreStop,
{
    lemma_stops(mac, events, k, j);
    lemma_one_event(mac, events, k);
    lemma_end_is_near(state_at(mac, events, k), events[k]);
}

/// What an event that calls for the end leads to.
proof fn lemma_end_is_near(s: EngineView, e: EventView)
    requires
        engine::sound(s),
        engine::accepts(s, e),
        calls_for_the_end(s, e),
    ensures
        ({
            let (t, a) = engine::next(s, e);
            &&& only_closes(s.mac, a)
            &&& s.phase is TierCheck ==> t.phase is Closing && a is StoreStop
            &&& s.phase is WaitCheck ==> t.phase is WaitStore && a is StoreStop
            &&& is_leaving(t.phase) || (t.phase is WaitStore && a is StoreStop) || (t.phase
                is RoundGate && e == EventView::Stop(true))
        }),
{
}

/// The way out is not left again.
proof fn lemma_way_out(s: EngineView, e: EventView)
    requires
        engine::sound(s),
        engine::accepts(s, e),
        is_leaving(s.phase) || s.phase is WaitStore || (s.phase is RoundGate && e
            == EventView::Stop(true)),
    ensures
        only_closes(s.mac, engine::next(s, e).1),
        s.phase is WaitStore ==> engine::next(s, e).0.phase is RoundGate,
        !(s.phase is WaitStore) ==> is_leaving(engine::next(s, e).0.phase),
{
}

proof fn lemma_stops(mac: Seq<char>, events: Seq<EventView>, k: int, n: int)
    requires
        orderly(mac, events),
        0 <= k < n <= events.len(),
        calls_for_the_end(state_at(mac, events, k), events[k]),
        state_at(mac, events, k).phase is TierCheck || steady(mac, events),
    ensures
        only_closes(mac, attempt(mac, events).1[n]),
        ({
            let phase = state_at(mac, events, n).phase;
            ||| is_leaving(phase)
            ||| steady(mac, events) && phase is WaitStore && attempt(mac, events).1[n] is StoreStop
            ||| steady(mac, events) && phase is RoundGate && exists|i: int|
                0 <= i < n && #[trigger] flag_is_set(mac, events, i)
        }),
    decreases n,
{
    lemma_one_event(mac, events, n - 1);
    if n == k + 1 {
        lemma_end_is_near(state_at(mac, events, k), events[k]);
        if events[k] == EventView::Stop(true) {
            assert(flag_is_set(mac, events, k));
        }
    } else {
        lemma_stops(mac, events, k, n - 1);
        let phase = state_at(mac, events, n - 1).phase;
        if phase is WaitStore && !is_leaving(phase) {
            assert(flag_is_set(mac, events, n - 1));
        } else if phase is RoundGate {
            let i = choose|i: int| 0 <= i < n - 1 && #[trigger] flag_is_set(mac, events, i);
            assert(flag_is_set(mac, events, i) && events[n - 1] is Stop);
        }
        lemma_way_out(state_at(mac, events, n - 1), events[n - 1]);
    }
}

/// Whether the stop flag was read as set, or a look before a tier found the device
/// up.
pub open spec fn was_told_to_stop(s: EngineView, e: EventView) -> bool {
    ||| e == EventView::Stop(true)
    ||| s.phase is TierCheck && e is Output && bt::link_up(e->Output_0)
}

/// The engine never gives up by itself: where an attempt ends without a
/// connection, the stop flag had been read as set, or a look before a tier had
/// found the device up, which then was lost again.
pub proof fn law_gives_up_only_when_stopped(mac: Seq<char>, events: Seq<EventView>, k: int)
    requires
        orderly(mac, events),
        0 <= k <= events.len(),
        attempt(mac, events).1[k] == ActionView::Announce(ProgressView::GaveUp),
    ensures
        exists|i: int|
            0 <= i < k && #[trigger] was_told_to_stop(state_at(mac, events, i), events[i]),
{
    law_attempt_is_sound(mac, events);
    if k > 0 {
        lemma_one_event(mac, events, k - 1);
        lemma_closing_begins(state_at(mac, events, k - 1), events[k - 1]);
        lemma_closes_when_stopped(mac, events, k - 1);
    } else {
        lemma_beginning(mac, events, 0);
    }
}

proof fn lemma_closing_begins(s: EngineView, e: EventView)
    requires
        engine::sound(s),
        engine::accepts(s, e),
    ensures
        is_closing(engine::next(s, e).0.phase) ==> is_closing(s.phase) || was_told_to_stop(s, e),
        engine::next(s, e).1 == ActionView::Announce(ProgressView::GaveUp) ==> is_closing(s.phase),
{
}

/// The engine is on its way out only where it was told to stop.
proof fn lemma_closes_when_stopped(mac: Seq<char>, events: Seq<EventView>, n: int)
    requires
        orderly(mac, events),
        0 <= n <= events.len(),
        is_closing(state_at(mac, events, n).phase),
    ensures
        exists|i: int|
            0 <= i < n && #[trigger] was_told_to_stop(state_at(mac, events, i), events[i]),
    decreases n,
{
    if n > 0 {
        lemma_one_event(mac, events, n - 1);
        lemma_closing_begins(state_at(mac, events, n - 1), events[n - 1]);
        if is_closing(state_at(mac, events, n - 1).phase) {
            lemma_closes_when_stopped(mac, events, n - 1);
        } else {
            assert(was_told_to_stop(state_at(mac, events, n - 1), events[n - 1]));
        }
    }
}

/// Whether the event before has made a tier begin.
pub open spec fn begins_tier(mac: Seq<char>, events: Seq<EventView>, k: int) -> bool {
    state_at(mac, events, k).phase is TierAnnounced
}

/// Working on a tier that has begun.
spec fn in_tier(phase: Phase) -> bool {
    ||| phase is TierAnnounced
    ||| phase is TierProbe
    ||| engine::in_script(phase)
    ||| phase is WaitBegin
    ||| phase is WaitClock
    ||| phase is WaitFlag
    ||| phase is WaitCheck
    ||| phase is WaitPause
}

/// Where the ladder stands, after the tier `t` of round `r` was the last to begin.
spec fn stands_after(s: EngineView, r: int, t: int) -> bool {
    &&& s.round >= r
    &&& in_tier(s.phase) ==> s.round == r && s.tier == t
    &&& s.phase is TierGate || s.phase is TierCheck ==> (s.round == r && s.tier == t + 1) || (
    s.round > r && s.tier == 0)
}

proof fn lemma_stand_step(s: EngineView, e: EventView, r: int, t: int)
    requires
        engine::sound(s),
        engine::accepts(s, e),
        stands_after(s, r, t),
        !(engine::next(s, e).0.phase is TierAnnounced),
    ensures
        stands_after(engine::next(s, e).0, r, t),
{
}

proof fn lemma_stands(mac: Seq<char>, events: Seq<EventView>, i: int, n: int)
    requires
        orderly(mac, events),
        0 <= i <= n <= events.len(),
        begins_tier(mac, events, i),
        forall|m: int| i < m <= n ==> !(#[trigger] begins_tier(mac, events, m)),
    ensures
        stands_after(
            state_at(mac, events, n),
            state_at(mac, events, i).round,
            state_at(mac, events, i).tier,
        ),
    decreases n - i,
{
    if i < n {
        lemma_one_event(mac, events, n - 1);
        lemma_stands(mac, events, i, n - 1);
        assert(!begins_tier(mac, events, n));
        lemma_stand_step(
            state_at(mac, events, n - 1),
            events[n - 1],
            state_at(mac, events, i).round,
            state_at(mac, events, i).tier,
        );
    }
}

/// A tier begins only at the look before it.
proof fn lemma_tier_begins(s: EngineView, e: EventView)
    requires
        engine::sound(s),
        engine::accepts(s, e),
        engine::next(s, e).0.phase is TierAnnounced,
    ensures
        s.phase is TierCheck,
        engine::next(s, e).0.round == s.round,
        engine::next(s, e).0.tier == s.tier,
        engine::next(s, e).1 == tier_begins(engine::next(s, e).0),
{
}

/// No tier begins with the first look.
proof fn lemma_no_tier_at_the_start(mac: Seq<char>, events: Seq<EventView>)
    ensures
        !begins_tier(mac, events, 0),
{
    assert(events.take(0).len() == 0);
}

/// The ladder is climbed in order over a whole attempt: each tier that begins is
/// the next one of the round, or the lightest of a later round. The line that
/// tells of it names both.
pub proof fn law_tiers_follow(mac: Seq<char>, events: Seq<EventView>, i: int, j: int)
    requires
        orderly(mac, events),
        0 <= i < j <= events.len(),
        begins_tier(mac, events, i),
        begins_tier(mac, events, j),
        forall|m: int| i < m < j ==> !(#[trigger] begins_tier(mac, events, m)),
    ensures
        ({
            let (a, b) = (state_at(mac, events, i), state_at(mac, events, j));
            &&& (b.round == a.round && b.tier == a.tier + 1) || (b.round > a.round && b.tier == 0)
            &&& attempt(mac, events).1[i] == tier_begins(a)
            &&& attempt(mac, events).1[j] == tier_begins(b)
        }),
{
    lemma_no_tier_at_the_start(mac, events);
    lemma_one_event(mac, events, i - 1);
    lemma_tier_begins(state_at(mac, events, i - 1), events[i - 1]);
    lemma_one_event(mac, events, j - 1);
    lemma_tier_begins(state_at(mac, events, j - 1), events[j - 1]);
    lemma_stands(mac, events, i, j - 1);
}

/// The first tier that begins is the lightest.
pub proof fn law_first_tier_is_the_lightest(mac: Seq<char>, events: Seq<EventView>, j: int)
    requires
        orderly(mac, events),
        0 <= j <= events.len(),
        begins_tier(mac, events, j),
        forall|m: int| 0 <= m < j ==> !(#[trigger] begins_tier(mac, events, m)),
    ensures
        state_at(mac, events, j).round >= 1,
        state_at(mac, events, j).tier == 0,
        attempt(mac, events).1[j] == tier_begins(state_at(mac, events, j)),
{
    lemma_no_tier_at_the_start(mac, events);
    lemma_one_event(mac, events, j - 1);
    lemma_tier_begins(state_at(mac, events, j - 1), events[j - 1]);
    lemma_before_the_first(mac, events, j - 1);
}

/// Where the ladder stands before any tier has begun.
spec fn stands_before(s: EngineView) -> bool {
    &&& !in_tier(s.phase)
    &&& s.phase is TierGate || s.phase is TierCheck ==> s.round >= 1 && s.tier == 0
}

proof fn lemma_before_step(s: EngineView, e: EventView)
    requires
        engine::sound(s),
        engine::accepts(s, e),
        stands_before(s),
        !(engine::next(s, e).0.phase is TierAnnounced),
    ensures
        stands_before(engine::next(s, e).0),
{
}

proof fn lemma_before_the_first(mac: Seq<char>, events: Seq<EventView>, n: int)
    requires
        orderly(mac, events),
        0 <= n <= events.len(),
        forall|m: int| 0 <= m <= n ==> !(#[trigger] begins_tier(mac, events, m)),
    ensures
        stands_before(state_at(mac, events, n)),
    decreases n,
{
    lemma_beginning(mac, events, n);
    assert(events.take(0).len() == 0);
    if n > 0 {
        lemma_one_event(mac, events, n - 1);
        lemma_before_the_first(mac, events, n - 1);
        assert(!begins_tier(mac, events, n));
        lemma_before_step(state_at(mac, events, n - 1), events[n - 1]);
    }
}

/// Where the ladder stands while nothing calls for the end, after the tier `t` of
/// round `r` was the last to begin.
spec fn climbs_from(s: EngineView, r: int, t: int) -> bool {
    &&& in_tier(s.phase) || s.phase is TierGate || s.phase is TierCheck || s.phase is RoundGate
    &&& in_tier(s.phase) ==> s.round == r && s.tier == t
    &&& s.phase is RoundGate ==> s.round == r && t == 4
    &&& s.phase is TierGate || s.phase is TierCheck ==> if t == 4 {
        s.round == r + 1 && s.tier == 0
    } else {
        s.round == r && s.tier == t + 1
    }
}

proof fn lemma_climb_step(s: EngineView, e: EventView, r: int, t: int)
    requires
        engine::sound(s),
        engine::accepts(s, e),
        climbs_from(s, r, t),
        !calls_for_the_end(s, e),
        !(engine::next(s, e).0.phase is TierAnnounced),
    ensures
        climbs_from(engine::next(s, e).0, r, t),
{
}

proof fn lemma_climbs(mac: Seq<char>, events: Seq<EventView>, i: int, n: int)
    requires
        orderly(mac, events),
        0 <= i <= n <= events.len(),
        begins_tier(mac, events, i),
        forall|m: int| i < m <= n ==> !(#[trigger] begins_tier(mac, events, m)),
        forall|m: int| i <= m < n ==> !calls_for_the_end(state_at(mac, events, m), #[trigger] events[m]),
    ensures
        climbs_from(
            state_at(mac, events, n),
            state_at(mac, events, i).round,
            state_at(mac, events, i).tier,
        ),
    decreases n - i,
{
    if i < n {
        lemma_one_event(mac, events, n - 1);
        lemma_climbs(mac, events, i, n - 1);
        assert(!begins_tier(mac, events, n));
        assert(!calls_for_the_end(state_at(mac, events, n - 1), events[n - 1]));
        lemma_climb_step(
            state_at(mac, events, n - 1),
            events[n - 1],
            state_at(mac, events, i).round,
            state_at(mac, events, i).tier,
        );
    }
}

/// Every round climbs all five tiers: while the device stays down and the stop flag
/// is not set, the tier that begins next is the following one of the same round,
/// and only after the fifth the first one of the next round.
pub proof fn law_every_round_climbs_all_tiers(
    mac: Seq<char>,
    events: Seq<EventView>,
    i: int,
    j: int,
)
    requires
        orderly(mac, events),
        0 <= i < j <= events.len(),
        begins_tier(mac, events, i),
        begins_tier(mac, events, j),
        forall|m: int| i < m < j ==> !(#[trigger] begins_tier(mac, events, m)),
        forall|m: int| i <= m < j ==> !calls_for_the_end(state_at(mac, events, m), #[trigger] events[m]),
    ensures
        ({
            let (a, b) = (state_at(mac, events, i), state_at(mac, events, j));
            if a.tier < 4 {
                b.round == a.round && b.tier == a.tier + 1
            } else {
                b.round == a.round + 1 && b.tier == 0
            }
        }),
{
    lemma_one_event(mac, events, j - 1);
    lemma_tier_begins(state_at(mac, events, j - 1), events[j - 1]);
    lemma_climbs(mac, events, i, j - 1);
}

/// A round ends before its last tier only where something called for the end.
pub proof fn law_rounds_are_not_cut_short(mac: Seq<char>, events: Seq<EventView>, i: int, j: int)
    requires
        orderly(mac, events),
        0 <= i < j <= events.len(),
        begins_tier(mac, events, i),
        begins_tier(mac, events, j),
        forall|m: int| i < m < j ==> !(#[trigger] begins_tier(mac, events, m)),
        state_at(mac, events, j).round != state_at(mac, events, i).round,
        state_at(mac, events, i).tier < 4,
    ensures
        exists|m: int|
            i <= m < j && calls_for_the_end(state_at(mac, events, m), #[trigger] events[m]),
{
    if forall|m: int|
        i <= m < j ==> !calls_for_the_end(state_at(mac, events, m), #[trigger] events[m]) {
        law_every_round_climbs_all_tiers(mac, events, i, j);
    }
}

} // verus!
