//! The aggressive connection engine.
//!
//! The engine decides and the program around it acts: each `step` takes what
//! the last action brought and says what to do next.

use crate::bt::{self, Command};
use crate::tiers::{self, Step, StepView};
use crate::{number, sysfs, text};
use vstd::prelude::*;

verus! {

/// What the engine tells the user.
pub enum Progress {
    /// A line for the log.
    Log(String),
    /// The device is up, after so many seconds, to one decimal.
    Connected(String),
    /// The attempt ended without a connection.
    GaveUp,
}

/// What the engine tells the user, its texts as sequences of characters.
pub enum ProgressView {
    Log(Seq<char>),
    Connected(Seq<char>),
    GaveUp,
}

impl View for Progress {
    type V = ProgressView;

    open spec fn view(&self) -> ProgressView {
        match self {
            Progress::Log(m) => ProgressView::Log(m@),
            Progress::Connected(s) => ProgressView::Connected(s@),
            Progress::GaveUp => ProgressView::GaveUp,
        }
    }
}

/// What the program is to do next.
pub enum Action {
    /// Run a command; bring its output.
    Run(Command),
    /// Do nothing for some milliseconds.
    Sleep(u64),
    /// Write a value to a file of sysfs.
    WriteSysfs(String, String),
    /// Start scanning in the background.
    StartScan,
    /// End the background scan, if it runs.
    StopScan,
    /// Find out whether there is an adapter.
    FindAdapter,
    /// Find the USB dongle behind the adapter.
    FindUsb,
    /// Read the stop flag.
    LoadStop,
    /// Set the stop flag.
    StoreStop,
    /// Start the background connector.
    StartSpammer,
    /// Wait for the background connector to end.
    JoinSpammer,
    /// Read a clock that counts nanoseconds.
    ReadClock,
    /// Tell the user.
    Announce(Progress),
    /// Tell the user that the device is up, and how long it took.
    AnnounceElapsed,
    /// Nothing is left to do.
    Finish,
}

/// What the program is to do next, its texts as sequences of characters.
pub enum ActionView {
    Run(Seq<Seq<char>>),
    Sleep(u64),
    WriteSysfs(Seq<char>, Seq<char>),
    StartScan,
    StopScan,
    FindAdapter,
    FindUsb,
    LoadStop,
    StoreStop,
    StartSpammer,
    JoinSpammer,
    ReadClock,
    Announce(ProgressView),
    AnnounceElapsed,
    Finish,
}

impl View for Action {
    type V = ActionView;

    open spec fn view(&self) -> ActionView {
        match self {
            Action::Run(c) => ActionView::Run(c@),
            Action::Sleep(ms) => ActionView::Sleep(*ms),
            Action::WriteSysfs(path, value) => ActionView::WriteSysfs(path@, value@),
            Action::StartScan => ActionView::StartScan,
            Action::StopScan => ActionView::StopScan,
            Action::FindAdapter => ActionView::FindAdapter,
            Action::FindUsb => ActionView::FindUsb,
            Action::LoadStop => ActionView::LoadStop,
            Action::StoreStop => ActionView::StoreStop,
            Action::StartSpammer => ActionView::StartSpammer,
            Action::JoinSpammer => ActionView::JoinSpammer,
            Action::ReadClock => ActionView::ReadClock,
            Action::Announce(p) => ActionView::Announce(p@),
            Action::AnnounceElapsed => ActionView::AnnounceElapsed,
            Action::Finish => ActionView::Finish,
        }
    }
}

/// What the last action brought.
pub enum Event {
    /// It is done.
    Done,
    /// What a command printed.
    Output(String),
    /// Whether there is an adapter.
    Adapter(bool),
    /// The USB dongle, if there is one.
    Usb(Option<String>),
    /// The stop flag.
    Stop(bool),
    /// The clock, in nanoseconds.
    Clock(u64),
}

/// What the last action brought, its texts as sequences of characters.
pub enum EventView {
    Done,
    Output(Seq<char>),
    Adapter(bool),
    Usb(Option<Seq<char>>),
    Stop(bool),
    Clock(u64),
}

impl View for Event {
    type V = EventView;

    open spec fn view(&self) -> EventView {
        match self {
            Event::Done => EventView::Done,
            Event::Output(o) => EventView::Output(o@),
            Event::Adapter(b) => EventView::Adapter(*b),
            Event::Usb(node) => EventView::Usb(sysfs::opt_string(*node)),
            Event::Stop(b) => EventView::Stop(*b),
            Event::Clock(t) => EventView::Clock(*t),
        }
    }
}

/// Whether an event is what an action brings.
pub open spec fn answers(a: ActionView, e: EventView) -> bool {
    match a {
        ActionView::Run(_) => e is Output,
        ActionView::FindAdapter => e is Adapter,
        ActionView::FindUsb => e is Usb,
        ActionView::LoadStop => e is Stop,
        ActionView::ReadClock => e is Clock,
        _ => e is Done,
    }
}

/// What the engine waits for.
#[derive(Clone, Copy)]
pub enum Phase {
    /// The first look at the device.
    FirstCheck,
    /// The word that the device was up all along.
    AlreadyUp,
    /// The start of the background connector.
    Spawning,
    /// The command of that number that makes the stack cooperative.
    Prep(usize),
    /// The word that the stack is ready.
    Prepared,
    /// The stop flag, before a round.
    RoundGate,
    /// The stop flag, before a tier.
    TierGate,
    /// A look at the device, before a tier.
    TierCheck,
    /// The word that a tier begins.
    TierAnnounced,
    /// The dongle that a tier works on.
    TierProbe,
    /// The end of a step of the tier.
    Working,
    /// The output of a command of the tier.
    Running,
    /// Whether there is an adapter.
    PollAdapter,
    /// The list of adapters.
    PollList,
    /// The list of devices.
    PollListed,
    /// The end of a pause between two looks.
    PollPause,
    /// The time at which the wait for the connection begins.
    WaitBegin,
    /// The time, in the wait for the connection.
    WaitClock,
    /// The stop flag, in the wait for the connection.
    WaitFlag,
    /// A look at the device, in the wait for the connection.
    WaitCheck,
    /// The stop flag being set, as the wait is over.
    WaitStore,
    /// The end of a pause in the wait for the connection.
    WaitPause,
    /// The stop flag being set, at the end.
    Closing,
    /// The end of the background connector.
    Joining,
    /// The last look at the device.
    LastCheck,
    /// The last word.
    Announced,
    /// Nothing.
    Finished,
}

/// The state of the engine, its texts as sequences of characters.
pub struct EngineView {
    pub mac: Seq<char>,
    pub phase: Phase,
    /// How many rounds have begun.
    pub round: int,
    /// The tier that the ladder has reached in this round.
    pub tier: int,
    /// The steps of that tier.
    pub script: Seq<StepView>,
    /// The step that is being worked on.
    pub at: int,
    /// How many looks of that step have failed.
    pub polls: int,
    /// When the wait for the connection began.
    pub since: u64,
}

/// A look at the device.
pub open spec fn check(mac: Seq<char>) -> ActionView {
    ActionView::Run(bt::on_device("info"@, mac, 4))
}

/// The same state in another phase.
pub open spec fn go(s: EngineView, phase: Phase) -> EngineView {
    EngineView { phase, ..s }
}

/// The state in which the engine starts.
pub open spec fn start(mac: Seq<char>) -> EngineView {
    EngineView {
        mac,
        phase: Phase::FirstCheck,
        round: 0,
        tier: 0,
        script: seq![],
        at: 0,
        polls: 0,
        since: 0,
    }
}

/// The commands that make the stack cooperative.
pub open spec fn prep_commands(mac: Seq<char>) -> Seq<Seq<Seq<char>>> {
    seq![
        bt::bt_argv(seq!["power"@, "on"@], 4),
        bt::bt_argv(seq!["agent"@, "on"@], 3),
        bt::bt_argv(seq!["default-agent"@], 3),
        bt::on_device("trust"@, mac, 3),
    ]
}

/// Going on with the preparations.
pub open spec fn prepare(s: EngineView, i: usize) -> (EngineView, ActionView) {
    if i < 4 {
        (go(s, Phase::Prep(i)), ActionView::Run(prep_commands(s.mac)[i as int]))
    } else {
        (
            go(s, Phase::Prepared),
            ActionView::Announce(
                ProgressView::Log("prep: powered on, agent ready, trusted"@),
            ),
        )
    }
}

/// Going back for another round.
pub open spec fn next_round(s: EngineView) -> (EngineView, ActionView) {
    (go(s, Phase::RoundGate), ActionView::LoadStop)
}

/// Going on to the given tier.
pub open spec fn to_tier(s: EngineView, tier: int) -> (EngineView, ActionView) {
    (EngineView { phase: Phase::TierGate, tier, ..s }, ActionView::LoadStop)
}

/// Going on after a tier that did not help.
pub open spec fn next_tier(s: EngineView) -> (EngineView, ActionView) {
    if s.tier + 1 < tiers::TIERS {
        to_tier(s, s.tier + 1)
    } else {
        next_round(s)
    }
}

/// The line that says which tier begins.
pub open spec fn tier_line(round: int, tier: int) -> Seq<char> {
    "[round "@ + number::decimal(round as nat) + "] "@ + tiers::name_of(tier)
}

/// Looking for what the current step looks for.
pub open spec fn look(s: EngineView) -> (EngineView, ActionView) {
    if s.script[s.at] is AwaitAdapter {
        (go(s, Phase::PollAdapter), ActionView::FindAdapter)
    } else {
        (go(s, Phase::PollListed), ActionView::Run(bt::devices_argv()))
    }
}

/// Beginning the step of that number, or the wait for the connection where
/// there is none.
pub open spec fn work_on(s: EngineView, at: int) -> (EngineView, ActionView) {
    let s = EngineView { at, polls: 0, ..s };
    if at >= s.script.len() {
        (go(s, Phase::WaitBegin), ActionView::ReadClock)
    } else {
        match s.script[at] {
            StepView::Emit(m) => (
                go(s, Phase::Working),
                ActionView::Announce(ProgressView::Log("    "@ + m)),
            ),
            StepView::Run(c) => (go(s, Phase::Running), ActionView::Run(c)),
            StepView::Sleep(ms) => (go(s, Phase::Working), ActionView::Sleep(ms)),
            StepView::Write(path, value) => (
                go(s, Phase::Working),
                ActionView::WriteSysfs(path, value),
            ),
            StepView::StartScan => (go(s, Phase::Working), ActionView::StartScan),
            StepView::StopScan => (go(s, Phase::Working), ActionView::StopScan),
            _ => look(s),
        }
    }
}

/// Beginning the tier that the ladder has reached.
pub open spec fn begin_tier(s: EngineView, node: Option<Seq<char>>) -> (EngineView, ActionView) {
    work_on(EngineView { script: tiers::steps_of(s.tier, s.mac, node), ..s }, 0)
}

/// How often the current step looks.
pub open spec fn tries(s: EngineView) -> int {
    match s.script[s.at] {
        StepView::AwaitAdapter { tries, .. } => tries as int,
        StepView::AwaitListed { tries, .. } => tries as int,
        _ => 0,
    }
}

/// The pause of the current step between two looks.
pub open spec fn pause(s: EngineView) -> u64 {
    match s.script[s.at] {
        StepView::AwaitAdapter { pause_ms, .. } => pause_ms,
        StepView::AwaitListed { pause_ms, .. } => pause_ms,
        _ => 0,
    }
}

/// Going on after a look that failed.
pub open spec fn look_failed(s: EngineView) -> (EngineView, ActionView) {
    (go(s, Phase::PollPause), ActionView::Sleep(pause(s)))
}

/// Whether the list of adapters is not empty.
pub open spec fn adapter_listed(out: Seq<char>) -> bool {
    text::trimmed(out).len() > 0
}

/// Whether a wait of `secs` seconds that began at `since` goes on at `now`.
pub open spec fn waits(secs: int, since: u64, now: u64) -> bool {
    now - since < secs * 1_000_000_000
}

/// What the engine does with an event: its next state, and what the program is
/// to do.
pub open spec fn next(s: EngineView, e: EventView) -> (EngineView, ActionView) {
    match s.phase {
        Phase::FirstCheck => if bt::link_up(e->Output_0) {
            (
                go(s, Phase::AlreadyUp),
                ActionView::Announce(ProgressView::Connected("0.0"@)),
            )
        } else {
            (go(s, Phase::Spawning), ActionView::StartSpammer)
        },
        Phase::AlreadyUp => (go(s, Phase::Finished), ActionView::Finish),
        Phase::Spawning => prepare(s, 0),
        Phase::Prep(i) => prepare(s, (i + 1) as usize),
        Phase::Prepared => next_round(s),
        Phase::RoundGate => if e->Stop_0 {
            (go(s, Phase::Closing), ActionView::StoreStop)
        } else {
            to_tier(EngineView { round: s.round + 1, ..s }, 0)
        },
        Phase::TierGate => if e->Stop_0 {
            next_round(s)
        } else {
            (go(s, Phase::TierCheck), check(s.mac))
        },
        Phase::TierCheck => if bt::link_up(e->Output_0) {
            (go(s, Phase::Closing), ActionView::StoreStop)
        } else {
            (
                go(s, Phase::TierAnnounced),
                ActionView::Announce(ProgressView::Log(tier_line(s.round, s.tier))),
            )
        },
        Phase::TierAnnounced => if tiers::on_dongle(s.tier) {
            (go(s, Phase::TierProbe), ActionView::FindUsb)
        } else {
            begin_tier(s, None)
        },
        Phase::TierProbe => begin_tier(s, e->Usb_0),
        Phase::Working => work_on(s, s.at + 1),
        Phase::Running => work_on(s, s.at + 1),
        Phase::PollAdapter => if e->Adapter_0 {
            (go(s, Phase::PollList), ActionView::Run(bt::bt_argv(seq!["list"@], 4)))
        } else {
            look_failed(s)
        },
        Phase::PollList => if adapter_listed(e->Output_0) {
            work_on(s, s.at + 1)
        } else {
            look_failed(s)
        },
        Phase::PollListed => if text::occurs(e->Output_0, s.mac) {
            work_on(s, s.at + 1)
        } else {
            look_failed(s)
        },
        Phase::PollPause => if s.polls + 1 < tries(s) {
            look(EngineView { polls: s.polls + 1, ..s })
        } else {
            work_on(s, s.at + 1)
        },
        Phase::WaitBegin => (
            EngineView { phase: Phase::WaitClock, since: e->Clock_0, ..s },
            ActionView::ReadClock,
        ),
        Phase::WaitClock => if waits(4, s.since, e->Clock_0) {
            (go(s, Phase::WaitFlag), ActionView::LoadStop)
        } else {
            next_tier(s)
        },
        Phase::WaitFlag => if e->Stop_0 {
            (go(s, Phase::WaitStore), ActionView::StoreStop)
        } else {
            (go(s, Phase::WaitCheck), check(s.mac))
        },
        Phase::WaitCheck => if bt::link_up(e->Output_0) {
            (go(s, Phase::WaitStore), ActionView::StoreStop)
        } else {
            (go(s, Phase::WaitPause), ActionView::Sleep(250))
        },
        Phase::WaitStore => next_round(s),
        Phase::WaitPause => (go(s, Phase::WaitClock), ActionView::ReadClock),
        Phase::Closing => (go(s, Phase::Joining), ActionView::JoinSpammer),
        Phase::Joining => (go(s, Phase::LastCheck), check(s.mac)),
        Phase::LastCheck => (
            go(s, Phase::Announced),
            if bt::link_up(e->Output_0) {
                ActionView::AnnounceElapsed
            } else {
                ActionView::Announce(ProgressView::GaveUp)
            },
        ),
        Phase::Announced => (go(s, Phase::Finished), ActionView::Finish),
        Phase::Finished => (go(s, Phase::Finished), ActionView::Finish),
    }
}

/// Whether an event is one that a phase waits for.
pub open spec fn fits(phase: Phase, e: EventView) -> bool {
    match phase {
        Phase::FirstCheck => e is Output,
        Phase::Prep(_) => e is Output,
        Phase::TierCheck => e is Output,
        Phase::Running => e is Output,
        Phase::PollList => e is Output,
        Phase::PollListed => e is Output,
        Phase::WaitCheck => e is Output,
        Phase::LastCheck => e is Output,
        Phase::RoundGate => e is Stop,
        Phase::TierGate => e is Stop,
        Phase::WaitFlag => e is Stop,
        Phase::TierProbe => e is Usb,
        Phase::PollAdapter => e is Adapter,
        Phase::WaitBegin => e is Clock,
        Phase::WaitClock => e is Clock,
        _ => e is Done,
    }
}

/// Whether the engine can take an event: it waits for it, and the number of the
/// round that it may begin can be counted.
pub open spec fn accepts(s: EngineView, e: EventView) -> bool {
    &&& fits(s.phase, e)
    &&& s.phase is RoundGate && !e->Stop_0 ==> s.round < u32::MAX
}

/// Whether the engine works on a step of its tier.
pub open spec fn in_script(phase: Phase) -> bool {
    ||| phase is Working
    ||| phase is Running
    ||| polling(phase)
}

/// Whether the engine looks for something.
pub open spec fn polling(phase: Phase) -> bool {
    ||| phase is PollAdapter
    ||| phase is PollList
    ||| phase is PollListed
    ||| phase is PollPause
}

/// What holds of the engine at all times.
pub open spec fn sound(s: EngineView) -> bool {
    &&& 0 <= s.round <= u32::MAX
    &&& 0 <= s.tier < tiers::TIERS
    &&& 0 <= s.at <= s.script.len()
    &&& forall|i: int| 0 <= i < s.script.len() ==> tiers::looks(#[trigger] s.script[i])
    &&& in_script(s.phase) ==> s.at < s.script.len()
    &&& s.phase is PollAdapter || s.phase is PollList ==> s.script[s.at] is AwaitAdapter
    &&& s.phase is PollListed ==> s.script[s.at] is AwaitListed
    &&& s.phase is PollPause ==> s.script[s.at] is AwaitAdapter || s.script[s.at] is AwaitListed
    &&& polling(s.phase) ==> 0 <= s.polls < tries(s)
    &&& s.phase is Prep ==> s.phase->Prep_0 < 4
}

/// The engine: the main thread of an attempt to connect one device.
pub struct Engine {
    mac: String,
    phase: Phase,
    round: u32,
    tier: usize,
    script: Vec<Step>,
    at: usize,
    polls: u32,
    since: u64,
}

impl View for Engine {
    type V = EngineView;

    closed spec fn view(&self) -> EngineView {
        EngineView {
            mac: self.mac@,
            phase: self.phase,
            round: self.round as int,
            tier: self.tier as int,
            script: tiers::step_views(self.script@),
            at: self.at as int,
            polls: self.polls as int,
            since: self.since,
        }
    }
}

/// Tries everything to get a device connected, fastest first: the engine, and
/// the first thing to do.
pub fn aggressive_connect(mac: String) -> (r: (Engine, Action))
    ensures
        r.0@ == start(mac@),
        sound(r.0@),
        r.1@ == check(mac@),
{
    let first = Action::Run(bt::info(mac.as_str()));
    let engine = Engine {
        mac,
        phase: Phase::FirstCheck,
        round: 0,
        tier: 0,
        script: Vec::new(),
        at: 0,
        polls: 0,
        since: 0,
    };
    assert(engine@.script == Seq::<StepView>::empty());
    (engine, first)
}

/// Whether the list of adapters is not empty.
pub fn adapter_present(out: &str) -> (r: bool)
    ensures
        r == adapter_listed(out@),
{
    !text::trim(out).is_empty()
}

/// Whether a wait of `secs` seconds that began at `since` goes on at `now`.
pub fn wait_connected(secs: u32, since: u64, now: u64) -> (r: bool)
    ensures
        r == waits(secs as int, since, now),
{
    now < since || now - since < secs as u64 * 1_000_000_000
}

/// A look at the device.
fn look_at(mac: &str) -> (a: Action)
    ensures
        a@ == check(mac@),
{
    Action::Run(bt::info(mac))
}

/// The command of that number that makes the stack cooperative.
fn prep_command(mac: &str, i: usize) -> (c: Command)
    requires
        i < 4,
    ensures
        c@ == prep_commands(mac@)[i as int],
{
    if i == 0 {
        let c = bt::bt(&["power", "on"], 4);
        assert(c@ == bt::bt_argv(seq!["power"@, "on"@], 4));
        c
    } else if i == 1 {
        let c = bt::bt(&["agent", "on"], 3);
        assert(c@ == bt::bt_argv(seq!["agent"@, "on"@], 3));
        c
    } else if i == 2 {
        let c = bt::bt(&["default-agent"], 3);
        assert(c@ == bt::bt_argv(seq!["default-agent"@], 3));
        c
    } else {
        bt::set_trust(mac, true)
    }
}

impl Engine {
    /// Whether the engine can take an event.
    pub fn can_take(&self, event: &Event) -> (r: bool)
        ensures
            r == accepts(self@, event@),
    {
        match event {
            Event::Output(_) => match self.phase {
                Phase::FirstCheck => true,
                Phase::Prep(_) => true,
                Phase::TierCheck => true,
                Phase::Running => true,
                Phase::PollList => true,
                Phase::PollListed => true,
                Phase::WaitCheck => true,
                Phase::LastCheck => true,
                _ => false,
            },
            Event::Stop(stop) => match self.phase {
                Phase::RoundGate => *stop || self.round < u32::MAX,
                Phase::TierGate => true,
                Phase::WaitFlag => true,
                _ => false,
            },
            Event::Usb(_) => match self.phase {
                Phase::TierProbe => true,
                _ => false,
            },
            Event::Adapter(_) => match self.phase {
                Phase::PollAdapter => true,
                _ => false,
            },
            Event::Clock(_) => match self.phase {
                Phase::WaitBegin => true,
                Phase::WaitClock => true,
                _ => false,
            },
            Event::Done => match self.phase {
                Phase::AlreadyUp => true,
                Phase::Spawning => true,
                Phase::Prepared => true,
                Phase::TierAnnounced => true,
                Phase::Working => true,
                Phase::PollPause => true,
                Phase::WaitStore => true,
                Phase::WaitPause => true,
                Phase::Closing => true,
                Phase::Joining => true,
                Phase::Announced => true,
                Phase::Finished => true,
                _ => false,
            },
        }
    }

    fn prepare(&mut self, i: usize) -> (a: Action)
        ensures
            (final(self)@, a@) == prepare(old(self)@, i),
    {
        if i < 4 {
            self.phase = Phase::Prep(i);
            Action::Run(prep_command(self.mac.as_str(), i))
        } else {
            self.phase = Phase::Prepared;
            Action::Announce(Progress::Log("prep: powered on, agent ready, trusted".to_owned()))
        }
    }

    fn next_round(&mut self) -> (a: Action)
        ensures
            (final(self)@, a@) == next_round(old(self)@),
    {
        self.phase = Phase::RoundGate;
        Action::LoadStop
    }

    fn next_tier(&mut self) -> (a: Action)
        requires
            old(self)@.tier < tiers::TIERS,
        ensures
            (final(self)@, a@) == next_tier(old(self)@),
    {
        if self.tier + 1 < tiers::TIERS {
            self.tier = self.tier + 1;
            self.phase = Phase::TierGate;
            Action::LoadStop
        } else {
            self.next_round()
        }
    }

    fn look(&mut self) -> (a: Action)
        requires
            0 <= old(self)@.at < old(self)@.script.len(),
        ensures
            (final(self)@, a@) == look(old(self)@),
    {
        assert(self@.script[self.at as int] == self.script@[self.at as int]@);
        match &self.script[self.at] {
            Step::AwaitAdapter { .. } => {
                self.phase = Phase::PollAdapter;
                Action::FindAdapter
            },
            _ => {
                self.phase = Phase::PollListed;
                Action::Run(bt::devices())
            },
        }
    }

    fn work_on(&mut self, at: usize) -> (a: Action)
        requires
            at <= old(self)@.script.len(),
        ensures
            (final(self)@, a@) == work_on(old(self)@, at as int),
    {
        self.at = at;
        self.polls = 0;
        if at >= self.script.len() {
            self.phase = Phase::WaitBegin;
            return Action::ReadClock;
        }
        assert(self@.script[at as int] == self.script@[at as int]@);
        match &self.script[at] {
            Step::Emit(m) => {
                let line: String = "    ".to_owned().concat(m.as_str());
                self.phase = Phase::Working;
                Action::Announce(Progress::Log(line))
            },
            Step::Run(c) => {
                let c: Command = c.clone();
                self.phase = Phase::Running;
                Action::Run(c)
            },
            Step::Sleep(ms) => {
                let ms: u64 = *ms;
                self.phase = Phase::Working;
                Action::Sleep(ms)
            },
            Step::Write(path, value) => {
                let path: String = path.clone();
                let value: String = value.clone();
                self.phase = Phase::Working;
                Action::WriteSysfs(path, value)
            },
            Step::StartScan => {
                self.phase = Phase::Working;
                Action::StartScan
            },
            Step::StopScan => {
                self.phase = Phase::Working;
                Action::StopScan
            },
            _ => self.look(),
        }
    }

    fn go_on(&mut self) -> (a: Action)
        requires
            0 <= old(self)@.at < old(self)@.script.len(),
        ensures
            (final(self)@, a@) == work_on(old(self)@, old(self)@.at + 1),
    {
        let n: usize = self.script.len();
        assert(self.at < n);
        self.work_on(self.at + 1)
    }

    fn begin_tier(&mut self, node: Option<String>) -> (a: Action)
        ensures
            (final(self)@, a@) == begin_tier(old(self)@, sysfs::opt_string(node)),
    {
        self.script = tiers::tier_steps(self.tier, self.mac.as_str(), &node);
        self.work_on(0)
    }

    fn look_failed(&mut self) -> (a: Action)
        requires
            0 <= old(self)@.at < old(self)@.script.len(),
        ensures
            (final(self)@, a@) == look_failed(old(self)@),
    {
        assert(self@.script[self.at as int] == self.script@[self.at as int]@);
        let ms: u64 = match &self.script[self.at] {
            Step::AwaitAdapter { pause_ms, .. } => *pause_ms,
            Step::AwaitListed { pause_ms, .. } => *pause_ms,
            _ => 0,
        };
        self.phase = Phase::PollPause;
        Action::Sleep(ms)
    }

    fn look_again(&mut self) -> (a: Action)
        requires
            sound(old(self)@),
            old(self)@.phase is PollPause,
        ensures
            (final(self)@, a@) == next(old(self)@, EventView::Done),
    {
        assert(self@.script[self.at as int] == self.script@[self.at as int]@);
        let tries: u32 = match &self.script[self.at] {
            Step::AwaitAdapter { tries, .. } => *tries,
            Step::AwaitListed { tries, .. } => *tries,
            _ => 0,
        };
        if self.polls + 1 < tries {
            self.polls = self.polls + 1;
            self.look()
        } else {
            self.go_on()
        }
    }

    fn tier_line(&self) -> (r: String)
        ensures
            r@ == tier_line(self@.round, self@.tier),
    {
        "[round ".to_owned().concat(number::natural(self.round as u64).as_str()).concat(
            "] ",
        ).concat(tiers::tier_name(self.tier))
    }

    /// Takes in the output of a command.
    fn on_output(&mut self, out: &str) -> (a: Action)
        requires
            sound(old(self)@),
            fits(old(self)@.phase, EventView::Output(out@)),
        ensures
            (final(self)@, a@) == next(old(self)@, EventView::Output(out@)),
    {
        match self.phase {
            Phase::FirstCheck => if bt::is_connected(out) {
                self.phase = Phase::AlreadyUp;
                Action::Announce(Progress::Connected("0.0".to_owned()))
            } else {
                self.phase = Phase::Spawning;
                Action::StartSpammer
            },
            Phase::Prep(i) => self.prepare(i + 1),
            Phase::TierCheck => if bt::is_connected(out) {
                self.phase = Phase::Closing;
                Action::StoreStop
            } else {
                let line: String = self.tier_line();
                self.phase = Phase::TierAnnounced;
                Action::Announce(Progress::Log(line))
            },
            Phase::Running => self.go_on(),
            Phase::PollList => if adapter_present(out) {
                self.go_on()
            } else {
                self.look_failed()
            },
            Phase::PollListed => if text::contains(out, self.mac.as_str()) {
                self.go_on()
            } else {
                self.look_failed()
            },
            Phase::WaitCheck => if bt::is_connected(out) {
                self.phase = Phase::WaitStore;
                Action::StoreStop
            } else {
                self.phase = Phase::WaitPause;
                Action::Sleep(250)
            },
            _ => {
                self.phase = Phase::Announced;
                if bt::is_connected(out) {
                    Action::AnnounceElapsed
                } else {
                    Action::Announce(Progress::GaveUp)
                }
            },
        }
    }

    /// Takes in the stop flag.
    fn on_stop(&mut self, stop: bool) -> (a: Action)
        requires
            sound(old(self)@),
            accepts(old(self)@, EventView::Stop(stop)),
        ensures
            (final(self)@, a@) == next(old(self)@, EventView::Stop(stop)),
    {
        match self.phase {
            Phase::RoundGate => if stop {
                self.phase = Phase::Closing;
                Action::StoreStop
            } else {
                self.round = self.round + 1;
                self.tier = 0;
                self.phase = Phase::TierGate;
                Action::LoadStop
            },
            Phase::TierGate => if stop {
                self.next_round()
            } else {
                self.phase = Phase::TierCheck;
                look_at(self.mac.as_str())
            },
            _ => if stop {
                self.phase = Phase::WaitStore;
                Action::StoreStop
            } else {
                self.phase = Phase::WaitCheck;
                look_at(self.mac.as_str())
            },
        }
    }

    /// Takes in the word that an action is done.
    fn on_done(&mut self) -> (a: Action)
        requires
            sound(old(self)@),
            fits(old(self)@.phase, EventView::Done),
        ensures
            (final(self)@, a@) == next(old(self)@, EventView::Done),
    {
        match self.phase {
            Phase::Spawning => self.prepare(0),
            Phase::Prepared => self.next_round(),
            Phase::TierAnnounced => if self.tier >= 3 {
                self.phase = Phase::TierProbe;
                Action::FindUsb
            } else {
                self.begin_tier(None)
            },
            Phase::Working => self.go_on(),
            Phase::PollPause => self.look_again(),
            Phase::WaitStore => self.next_round(),
            Phase::WaitPause => {
                self.phase = Phase::WaitClock;
                Action::ReadClock
            },
            Phase::Closing => {
                self.phase = Phase::Joining;
                Action::JoinSpammer
            },
            Phase::Joining => {
                self.phase = Phase::LastCheck;
                look_at(self.mac.as_str())
            },
            _ => {
                self.phase = Phase::Finished;
                Action::Finish
            },
        }
    }

    /// Takes what the last action brought and says what to do next.
    pub fn step(&mut self, event: Event) -> (a: Action)
        requires
            sound(old(self)@),
            accepts(old(self)@, event@),
        ensures
            (final(self)@, a@) == next(old(self)@, event@),
            sound(final(self)@),
    {
        proof {
            lemma_stays_sound(self@, event@);
        }
        match event {
            Event::Output(out) => self.on_output(out.as_str()),
            Event::Stop(stop) => self.on_stop(stop),
            Event::Usb(node) => self.begin_tier(node),
            Event::Adapter(found) => if found {
                self.phase = Phase::PollList;
                let c = bt::bt(&["list"], 4);
                assert(c@ == bt::bt_argv(seq!["list"@], 4));
                Action::Run(c)
            } else {
                self.look_failed()
            },
            Event::Clock(now) => match self.phase {
                Phase::WaitBegin => {
                    self.since = now;
                    self.phase = Phase::WaitClock;
                    Action::ReadClock
                },
                _ => if wait_connected(4, self.since, now) {
                    self.phase = Phase::WaitFlag;
                    Action::LoadStop
                } else {
                    self.next_tier()
                },
            },
            Event::Done => self.on_done(),
        }
    }
}

/// No event leads the engine astray.
pub proof fn lemma_stays_sound(s: EngineView, e: EventView)
    requires
        sound(s),
        accepts(s, e),
    ensures
        sound(next(s, e).0),
{
    tiers::lemma_steps_look(s.tier, s.mac, None);
    tiers::lemma_steps_look(s.tier, s.mac, e->Usb_0);
    if in_script(s.phase) && s.at + 1 < s.script.len() {
        assert(tiers::looks(s.script[s.at + 1]));
    }
    if s.phase is TierAnnounced {
        assert(tiers::looks(tiers::steps_of(s.tier, s.mac, None)[0]));
    }
    if s.phase is TierProbe {
        assert(tiers::looks(tiers::steps_of(s.tier, s.mac, e->Usb_0)[0]));
    }
}

// ---- what is said of actions and events -------------------------------------
/// What is said of news is said of what they hold.
pub proof fn law_progress_view(p: Progress)
    ensures
        match p {
            Progress::Log(m) => p@ == ProgressView::Log(m@),
            Progress::Connected(s) => p@ == ProgressView::Connected(s@),
            Progress::GaveUp => p@ is GaveUp,
        },
{
}

/// What is said of an action is said of what it holds.
pub proof fn law_action_view(a: Action)
    ensures
        match a {
            Action::Run(c) => a@ == ActionView::Run(c@),
            Action::Sleep(ms) => a@ == ActionView::Sleep(ms),
            Action::WriteSysfs(p, v) => a@ == ActionView::WriteSysfs(p@, v@),
            Action::StartScan => a@ is StartScan,
            Action::StopScan => a@ is StopScan,
            Action::FindAdapter => a@ is FindAdapter,
            Action::FindUsb => a@ is FindUsb,
            Action::LoadStop => a@ is LoadStop,
            Action::StoreStop => a@ is StoreStop,
            Action::StartSpammer => a@ is StartSpammer,
            Action::JoinSpammer => a@ is JoinSpammer,
            Action::ReadClock => a@ is ReadClock,
            Action::Announce(p) => a@ == ActionView::Announce(p@),
            Action::AnnounceElapsed => a@ is AnnounceElapsed,
            Action::Finish => a@ is Finish,
        },
{
}

/// What is said of an event is said of what it holds.
pub proof fn law_event_view(e: Event)
    ensures
        match e {
            Event::Done => e@ is Done,
            Event::Output(o) => e@ == EventView::Output(o@),
            Event::Adapter(b) => e@ == EventView::Adapter(b),
            Event::Usb(None) => e@ == EventView::Usb(None),
            Event::Usb(Some(n)) => e@ == EventView::Usb(Some(n@)),
            Event::Stop(b) => e@ == EventView::Stop(b),
            Event::Clock(t) => e@ == EventView::Clock(t),
        },
{
}

/// A wait goes on for so many seconds from its beginning, and no longer; the list
/// of adapters is empty where it is white space.
pub proof fn law_waits(secs: int, since: u64, later: nat, blank: Seq<char>, out: Seq<char>)
    requires
        since + later <= u64::MAX,
        forall|i: int| 0 <= i < blank.len() ==> text::is_space(#[trigger] blank[i]),
    ensures
        waits(secs, since, (since + later) as u64) <==> later < secs * 1_000_000_000,
        !adapter_listed(blank),
        (exists|i: int| 0 <= i < out.len() && !text::is_space(#[trigger] out[i]))
            <==> adapter_listed(out),
{
    text::law_trim_takes_the_blanks_around(blank, seq![], seq![]);
    assert(blank + seq![] + seq![] == blank);
    text::law_trimmed_stands_in_the_text(out);
    let (a, b) = choose|a: int, b: int|
        #![trigger out.subrange(a, b)]
        0 <= a <= b <= out.len() && text::trimmed(out) == out.subrange(a, b) && (forall|i: int|
            (0 <= i < a || b <= i < out.len()) ==> text::is_space(#[trigger] out[i]));
    if adapter_listed(out) {
        text::law_trim_once(out);
        assert(text::trimmed(out)[0] == out[a]);
    }
}

} // verus!
