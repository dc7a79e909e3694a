//! What the engine does at each turn of an attempt, and what several turns come
//! to.

use crate::bt;
use crate::engine::{self, ActionView, EngineView, EventView, Phase, ProgressView};
use crate::tiers::{self, StepView};
use crate::{number, text};
use vstd::prelude::*;

verus! {

/// A look at a device is its information, asked for with four seconds to answer.
pub proof fn law_a_look(mac: Seq<char>)
    ensures
        engine::check(mac) == ActionView::Run(seq!["4"@, "bluetoothctl"@, "info"@, mac]),
{
    number::lemma_small_numbers();
    bt::law_commands(seq![], mac, "info"@, 4, 0);
}

/// An attempt begins with a look, in the first tier of no round yet.
pub proof fn law_the_start(mac: Seq<char>)
    ensures
        engine::start(mac).phase is FirstCheck,
        engine::start(mac).mac == mac,
        engine::start(mac).round == 0,
        engine::start(mac).tier == 0,
        engine::start(mac).at == 0,
        engine::start(mac).polls == 0,
        engine::start(mac).script.len() == 0,
        engine::sound(engine::start(mac)),
{
}

/// The device of an attempt is never another one, and rounds are counted one by
/// one.
pub proof fn law_what_stays(s: EngineView, e: EventView)
    ensures
        engine::next(s, e).0.mac == s.mac,
        engine::next(s, e).0.round == s.round + (if s.phase is RoundGate && !e->Stop_0 {
            1int
        } else {
            0
        }),
        engine::next(s, e).0.since == s.since || s.phase is WaitBegin,
        engine::next(s, e).0.script == s.script || s.phase is TierAnnounced || s.phase is TierProbe,
{
}

/// The first look: a device that is up is left alone, and for any other the
/// background connector is started and the stack is made cooperative.
pub proof fn law_first_turns(s: EngineView, out: Seq<char>)
    requires
        s.phase is FirstCheck,
    ensures
        bt::link_up(out) ==> engine::next(s, EventView::Output(out)) == (
            EngineView { phase: Phase::AlreadyUp, ..s },
            ActionView::Announce(ProgressView::Connected("0.0"@)),
        ),
        !bt::link_up(out) ==> {
            let a = engine::next(s, EventView::Output(out));
            let b = engine::next(a.0, EventView::Done);
            let c = engine::next(b.0, EventView::Output(out));
            let d = engine::next(c.0, EventView::Output(out));
            let e = engine::next(d.0, EventView::Output(out));
            let f = engine::next(e.0, EventView::Output(out));
            let g = engine::next(f.0, EventView::Done);
            &&& a.1 is StartSpammer
            &&& b.1 == ActionView::Run(seq!["4"@, "bluetoothctl"@, "power"@, "on"@])
            &&& c.1 == ActionView::Run(seq!["3"@, "bluetoothctl"@, "agent"@, "on"@])
            &&& d.1 == ActionView::Run(seq!["3"@, "bluetoothctl"@, "default-agent"@])
            &&& e.1 == ActionView::Run(seq!["3"@, "bluetoothctl"@, "trust"@, s.mac])
            &&& f.1 == ActionView::Announce(
                ProgressView::Log("prep: powered on, agent ready, trusted"@),
            )
            &&& g == (EngineView { phase: Phase::RoundGate, ..s }, ActionView::LoadStop)
        },
{
    lemma_preparation(s.mac);
}

proof fn lemma_preparation(mac: Seq<char>)
    ensures
        engine::prep_commands(mac) == seq![
            seq!["4"@, "bluetoothctl"@, "power"@, "on"@],
            seq!["3"@, "bluetoothctl"@, "agent"@, "on"@],
            seq!["3"@, "bluetoothctl"@, "default-agent"@],
            seq!["3"@, "bluetoothctl"@, "trust"@, mac],
        ],
{
    number::lemma_small_numbers();
    assert(bt::bt_argv(seq!["power"@, "on"@], 4) == seq!["4"@, "bluetoothctl"@, "power"@, "on"@]);
    assert(bt::bt_argv(seq!["agent"@, "on"@], 3) == seq!["3"@, "bluetoothctl"@, "agent"@, "on"@]);
    assert(bt::bt_argv(seq!["default-agent"@], 3) == seq!["3"@, "bluetoothctl"@, "default-agent"@]);
    assert(bt::on_device("trust"@, mac, 3) == seq!["3"@, "bluetoothctl"@, "trust"@, mac]);
}

/// Whatever the commands of the preparation print makes no difference.
pub proof fn law_preparation_goes_on(s: EngineView, out: Seq<char>, other: Seq<char>)
    requires
        s.phase is Prep || s.phase is Running,
    ensures
        engine::next(s, EventView::Output(out)) == engine::next(s, EventView::Output(other)),
{
}

/// Before a round the flag decides: set, the attempt closes; not set, the next
/// round begins at the lightest tier. Before a tier the flag is read again, and
/// then the device is looked at.
pub proof fn law_the_gates(s: EngineView)
    ensures
        s.phase is RoundGate ==> {
            &&& engine::next(s, EventView::Stop(true)) == (
                EngineView { phase: Phase::Closing, ..s },
                ActionView::StoreStop,
            )
            &&& engine::next(s, EventView::Stop(false)) == (
                EngineView { phase: Phase::TierGate, round: s.round + 1, tier: 0, ..s },
                ActionView::LoadStop,
            )
        },
        s.phase is TierGate ==> {
            &&& engine::next(s, EventView::Stop(true)) == (
                EngineView { phase: Phase::RoundGate, ..s },
                ActionView::LoadStop,
            )
            &&& engine::next(s, EventView::Stop(false)) == (
                EngineView { phase: Phase::TierCheck, ..s },
                ActionView::Run(seq!["4"@, "bluetoothctl"@, "info"@, s.mac]),
            )
        },
{
    law_a_look(s.mac);
}

/// A tier begins where the device is down, and its line names the round and the
/// tier. Where the device is up the attempt closes.
pub proof fn law_a_tier_begins(s: EngineView, out: Seq<char>)
    requires
        s.phase is TierCheck,
        0 <= s.tier < 5,
        s.round >= 0,
    ensures
        bt::link_up(out) ==> engine::next(s, EventView::Output(out)) == (
            EngineView { phase: Phase::Closing, ..s },
            ActionView::StoreStop,
        ),
        !bt::link_up(out) ==> engine::next(s, EventView::Output(out)) == (
            EngineView { phase: Phase::TierAnnounced, ..s },
            ActionView::Announce(
                ProgressView::Log(
                    "[round "@ + number::decimal(s.round as nat) + "] "@ + (seq![
                        "nudge: disconnect + reconnect"@,
                        "adapter power-cycle"@,
                        "re-pair (remove + scan + pair)"@,
                        "USB deauthorize/reauthorize (soft replug)"@,
                        "USB unbind/bind (hard replug)"@,
                    ][s.tier]),
                ),
            ),
        ),
{
}

/// Whether the engine has just asked for what a step says.
pub open spec fn works_on(step: StepView, phase: Phase, a: ActionView) -> bool {
    match step {
        StepView::Emit(m) => phase is Working && a == ActionView::Announce(
            ProgressView::Log(seq![' ', ' ', ' ', ' '] + m),
        ),
        StepView::Run(c) => phase is Running && a == ActionView::Run(c),
        StepView::Sleep(ms) => phase is Working && a == ActionView::Sleep(ms),
        StepView::Write(p, v) => phase is Working && a == ActionView::WriteSysfs(p, v),
        StepView::StartScan => phase is Working && a is StartScan,
        StepView::StopScan => phase is Working && a is StopScan,
        StepView::AwaitAdapter { .. } => phase is PollAdapter && a is FindAdapter,
        StepView::AwaitListed { .. } => phase is PollListed && a == ActionView::Run(
            seq!["4"@, "bluetoothctl"@, "devices"@],
        ),
    }
}

proof fn lemma_works_on(s: EngineView, at: int)
    requires
        0 <= at < s.script.len(),
    ensures
        ({
            let (t, a) = engine::work_on(s, at);
            &&& works_on(s.script[at], t.phase, a)
            &&& t == (EngineView { phase: t.phase, at, polls: 0, ..s })
        }),
{
    number::lemma_small_numbers();
    bt::law_commands(seq![], s.mac, s.mac, 4, 0);
    reveal_strlit("    ");
    assert("    "@ == seq![' ', ' ', ' ', ' ']);
}

/// A tier is begun with its own steps, the first of them first. One that works on
/// the dongle asks for it before, and works on the one that is found.
pub proof fn law_a_tier_does_its_own_steps(s: EngineView, node: Option<Seq<char>>)
    requires
        0 <= s.tier < 5,
    ensures
        s.phase is TierAnnounced && s.tier >= 3 ==> engine::next(s, EventView::Done) == (
            EngineView { phase: Phase::TierProbe, ..s },
            ActionView::FindUsb,
        ),
        s.phase is TierAnnounced && s.tier < 3 ==> {
            let (t, a) = engine::next(s, EventView::Done);
            &&& t.script == tiers::steps_of(s.tier, s.mac, None)
            &&& t.at == 0 && t.polls == 0 && t.tier == s.tier
            &&& works_on(t.script[0], t.phase, a)
        },
        s.phase is TierProbe ==> {
            let (t, a) = engine::next(s, EventView::Usb(node));
            &&& t.script == tiers::steps_of(s.tier, s.mac, node)
            &&& t.at == 0 && t.polls == 0 && t.tier == s.tier
            &&& works_on(t.script[0], t.phase, a)
        },
{
    let n = if s.phase is TierProbe {
        node
    } else {
        None
    };
    tiers::lemma_steps_look(s.tier, s.mac, n);
    lemma_works_on(EngineView { script: tiers::steps_of(s.tier, s.mac, n), ..s }, 0);
}

/// Whether the engine goes on with the step behind the current one, or with the
/// wait for the connection where it was the last.
pub open spec fn goes_on(s: EngineView, t: EngineView, a: ActionView) -> bool {
    &&& t.at == s.at + 1 && t.polls == 0 && t.script == s.script && t.tier == s.tier
    &&& t.at < s.script.len() ==> works_on(s.script[t.at], t.phase, a)
    &&& t.at >= s.script.len() ==> t.phase is WaitBegin && a is ReadClock
}

/// The steps of a tier are worked on one after the other, whatever commands print.
pub proof fn law_steps_follow(s: EngineView, out: Seq<char>)
    requires
        engine::sound(s),
    ensures
        s.phase is Working ==> goes_on(
            s,
            engine::next(s, EventView::Done).0,
            engine::next(s, EventView::Done).1,
        ),
        s.phase is Running ==> goes_on(
            s,
            engine::next(s, EventView::Output(out)).0,
            engine::next(s, EventView::Output(out)).1,
        ),
{
    if s.at + 1 < s.script.len() {
        lemma_works_on(s, s.at + 1);
    }
}

/// How often a step looks at most, and how long it pauses after a look that failed.
pub open spec fn patience(step: StepView) -> (u32, u64) {
    match step {
        StepView::AwaitAdapter { tries, pause_ms } => (tries, pause_ms),
        StepView::AwaitListed { tries, pause_ms } => (tries, pause_ms),
        _ => (0, 0),
    }
}

/// A step that looks for something goes on as soon as it is found. After a look
/// that failed it pauses, and looks again until it has looked as often as it says.
pub proof fn law_looking(s: EngineView, out: Seq<char>)
    requires
        engine::sound(s),
        engine::polling(s.phase),
    ensures
        ({
            let (tries, pause_ms) = patience(s.script[s.at]);
            let pausing = (EngineView { phase: Phase::PollPause, ..s }, ActionView::Sleep(pause_ms));
            let found = engine::next(s, EventView::Output(out));
            let paused = engine::next(s, EventView::Done);
            &&& s.phase is PollAdapter ==> {
                &&& engine::next(s, EventView::Adapter(false)) == pausing
                &&& engine::next(s, EventView::Adapter(true)) == (
                    EngineView { phase: Phase::PollList, ..s },
                    ActionView::Run(seq!["4"@, "bluetoothctl"@, "list"@]),
                )
            }
            &&& s.phase is PollList && engine::adapter_listed(out) ==> goes_on(s, found.0, found.1)
            &&& s.phase is PollList && !engine::adapter_listed(out) ==> found == pausing
            &&& s.phase is PollListed && text::occurs(out, s.mac) ==> goes_on(s, found.0, found.1)
            &&& s.phase is PollListed && !text::occurs(out, s.mac) ==> found == pausing
            &&& s.phase is PollPause && s.polls + 1 < tries ==> {
                &&& paused.0 == (EngineView {
                    phase: paused.0.phase,
                    polls: s.polls + 1,
                    ..s
                })
                &&& works_on(s.script[s.at], paused.0.phase, paused.1)
            }
            &&& s.phase is PollPause && s.polls + 1 >= tries ==> goes_on(s, paused.0, paused.1)
        }),
{
    number::lemma_small_numbers();
    bt::law_commands(seq![], s.mac, s.mac, 4, 0);
    assert(bt::bt_argv(seq!["list"@], 4) == seq!["4"@, "bluetoothctl"@, "list"@]);
    if s.at + 1 < s.script.len() {
        lemma_works_on(s, s.at + 1);
    }
}

/// After a tier the connection is waited for, for four seconds: the flag and the
/// device are looked at every quarter of a second, and the wait is over as soon as
/// either says so.
pub proof fn law_the_wait(s: EngineView, begun: u64, now: u64, out: Seq<char>)
    ensures
        s.phase is WaitBegin ==> engine::next(s, EventView::Clock(begun)) == (
            EngineView { phase: Phase::WaitClock, since: begun, ..s },
            ActionView::ReadClock,
        ),
        s.phase is WaitClock && now < s.since + 4_000_000_000 ==> engine::next(
            s,
            EventView::Clock(now),
        ) == (EngineView { phase: Phase::WaitFlag, ..s }, ActionView::LoadStop),
        s.phase is WaitFlag ==> engine::next(s, EventView::Stop(false)) == (
            EngineView { phase: Phase::WaitCheck, ..s },
            ActionView::Run(seq!["4"@, "bluetoothctl"@, "info"@, s.mac]),
        ),
        s.phase is WaitFlag ==> engine::next(s, EventView::Stop(true)) == (
            EngineView { phase: Phase::WaitStore, ..s },
            ActionView::StoreStop,
        ),
        s.phase is WaitCheck && bt::link_up(out) ==> engine::next(s, EventView::Output(out)) == (
            EngineView { phase: Phase::WaitStore, ..s },
            ActionView::StoreStop,
        ),
        s.phase is WaitCheck && !bt::link_up(out) ==> engine::next(s, EventView::Output(out)) == (
            EngineView { phase: Phase::WaitPause, ..s },
            ActionView::Sleep(250),
        ),
        s.phase is WaitPause ==> engine::next(s, EventView::Done) == (
            EngineView { phase: Phase::WaitClock, ..s },
            ActionView::ReadClock,
        ),
        s.phase is WaitStore || s.phase is Prepared ==> engine::next(s, EventView::Done) == (
            EngineView { phase: Phase::RoundGate, ..s },
            ActionView::LoadStop,
        ),
{
    law_a_look(s.mac);
}

/// A tier that did not help is followed by the next one, in every round: once the
/// wait has run out, the flag is not set and the device is still down, the next
/// tier of the same round begins; after the last tier it is the first tier of the
/// next round.
pub proof fn law_a_tier_that_did_not_help(s: EngineView, now: u64, out: Seq<char>)
    requires
        s.phase is WaitClock,
        0 <= s.tier < 5,
        s.round >= 0,
        now >= s.since + 4_000_000_000,
        !bt::link_up(out),
    ensures
        s.tier < 4 ==> {
            let a = engine::next(s, EventView::Clock(now));
            let b = engine::next(a.0, EventView::Stop(false));
            let c = engine::next(b.0, EventView::Output(out));
            &&& a.1 is LoadStop
            &&& c.0 == (EngineView { phase: Phase::TierAnnounced, tier: s.tier + 1, ..s })
            &&& c.1 == ActionView::Announce(
                ProgressView::Log(
                    "[round "@ + number::decimal(s.round as nat) + "] "@ + tiers::name_of(
                        s.tier + 1,
                    ),
                ),
            )
        },
        s.tier == 4 ==> {
            let a = engine::next(s, EventView::Clock(now));
            let b = engine::next(a.0, EventView::Stop(false));
            let c = engine::next(b.0, EventView::Stop(false));
            let d = engine::next(c.0, EventView::Output(out));
            &&& a.1 is LoadStop
            &&& b.1 is LoadStop
            &&& d.0 == (EngineView {
                phase: Phase::TierAnnounced,
                round: s.round + 1,
                tier: 0,
                ..s
            })
            &&& d.1 == ActionView::Announce(
                ProgressView::Log(
                    "[round "@ + number::decimal((s.round + 1) as nat) + "] "@
                        + "nudge: disconnect + reconnect"@,
                ),
            )
        },
{
}

/// An attempt that is to end sets the flag, waits for the background connector,
/// looks once more and says how it went, and that is all.
pub proof fn law_the_end(s: EngineView, out: Seq<char>)
    ensures
        s.phase is Closing ==> {
            let a = engine::next(s, EventView::Done);
            let b = engine::next(a.0, EventView::Done);
            let c = engine::next(b.0, EventView::Output(out));
            let d = engine::next(c.0, EventView::Done);
            &&& a.1 is JoinSpammer
            &&& b.1 == ActionView::Run(seq!["4"@, "bluetoothctl"@, "info"@, s.mac])
            &&& bt::link_up(out) ==> c.1 is AnnounceElapsed
            &&& !bt::link_up(out) ==> c.1 == ActionView::Announce(ProgressView::GaveUp)
            &&& d == (EngineView { phase: Phase::Finished, ..s }, ActionView::Finish)
            &&& engine::next(d.0, EventView::Done) == d
        },
        s.phase is AlreadyUp || s.phase is Announced || s.phase is Finished ==> engine::next(
            s,
            EventView::Done,
        ) == (EngineView { phase: Phase::Finished, ..s }, ActionView::Finish),
{
    law_a_look(s.mac);
}

/// Every action has its answer, and the engine takes it, whatever it says. Only
/// the number of rounds has a limit.
pub proof fn law_takes_every_answer(s: EngineView, e: EventView, answer: EventView)
    requires
        engine::sound(s),
        engine::accepts(s, e),
        engine::next(s, e).0.round < u32::MAX,
        match engine::next(s, e).1 {
            ActionView::Run(_) => answer is Output,
            ActionView::FindAdapter => answer is Adapter,
            ActionView::FindUsb => answer is Usb,
            ActionView::LoadStop => answer is Stop,
            ActionView::ReadClock => answer is Clock,
            _ => answer is Done,
        },
    ensures
        engine::accepts(engine::next(s, e).0, answer),
{
    engine::lemma_stays_sound(s, e);
}

/// The first look is answered, and it is all that the engine waits for then.
pub proof fn law_takes_the_first_answer(mac: Seq<char>, e: EventView)
    ensures
        engine::accepts(engine::start(mac), e) <==> e is Output,
{
}

} // verus!
