//! The background connector: asks for the connection for as long as the attempt
//! goes on.

use crate::{bt, number};
use crate::engine::{self, Action, ActionView, Event, EventView};
use vstd::prelude::*;

verus! {

/// What the background connector waits for.
#[derive(Clone, Copy)]
pub enum Turn {
    /// The stop flag.
    Gate,
    /// The end of a request for the connection.
    Connecting,
    /// A look at the device.
    Checking,
    /// The stop flag being set.
    Storing,
    /// The end of a pause.
    Pausing,
    /// Nothing.
    Ended,
}

/// The state of the background connector.
pub struct SpammerView {
    pub mac: Seq<char>,
    pub turn: Turn,
}

/// The background connector.
pub struct Spammer {
    mac: String,
    turn: Turn,
}

impl View for Spammer {
    type V = SpammerView;

    closed spec fn view(&self) -> SpammerView {
        SpammerView { mac: self.mac@, turn: self.turn }
    }
}

/// Whether the background connector waits for an event.
pub open spec fn accepts(s: SpammerView, e: EventView) -> bool {
    match s.turn {
        Turn::Gate => e is Stop,
        Turn::Connecting => e is Output,
        Turn::Checking => e is Output,
        _ => e is Done,
    }
}

/// The same state at another turn.
pub open spec fn go(s: SpammerView, turn: Turn) -> SpammerView {
    SpammerView { turn, ..s }
}

/// What the background connector does with an event.
pub open spec fn next(s: SpammerView, e: EventView) -> (SpammerView, ActionView) {
    match s.turn {
        Turn::Gate => if e->Stop_0 {
            (go(s, Turn::Ended), ActionView::Finish)
        } else {
            (go(s, Turn::Connecting), ActionView::Run(bt::on_device("connect"@, s.mac, 6)))
        },
        Turn::Connecting => (go(s, Turn::Checking), engine::check(s.mac)),
        Turn::Checking => if bt::link_up(e->Output_0) {
            (go(s, Turn::Storing), ActionView::StoreStop)
        } else {
            (go(s, Turn::Pausing), ActionView::Sleep(400))
        },
        Turn::Pausing => (go(s, Turn::Gate), ActionView::LoadStop),
        _ => (go(s, Turn::Ended), ActionView::Finish),
    }
}

/// The background connector, and the first thing to do.
pub fn spam(mac: String) -> (r: (Spammer, Action))
    ensures
        r.0@ == (SpammerView { mac: mac@, turn: Turn::Gate }),
        r.1@ == ActionView::LoadStop,
{
    (Spammer { mac, turn: Turn::Gate }, Action::LoadStop)
}

impl Spammer {
    /// Whether the background connector waits for an event.
    pub fn can_take(&self, event: &Event) -> (r: bool)
        ensures
            r == accepts(self@, event@),
    {
        match event {
            Event::Stop(_) => match self.turn {
                Turn::Gate => true,
                _ => false,
            },
            Event::Output(_) => match self.turn {
                Turn::Connecting => true,
                Turn::Checking => true,
                _ => false,
            },
            Event::Done => match self.turn {
                Turn::Storing => true,
                Turn::Pausing => true,
                Turn::Ended => true,
                _ => false,
            },
            _ => false,
        }
    }

    /// Takes what the last action brought and says what to do next.
    pub fn step(&mut self, event: Event) -> (a: Action)
        requires
            accepts(old(self)@, event@),
        ensures
            (final(self)@, a@) == next(old(self)@, event@),
    {
        match event {
            Event::Stop(stop) => if stop {
                self.turn = Turn::Ended;
                Action::Finish
            } else {
                self.turn = Turn::Connecting;
                let c = bt::bt(&["connect", self.mac.as_str()], 6);
                assert(c@ == bt::on_device("connect"@, self.mac@, 6));
                Action::Run(c)
            },
            Event::Output(out) => match self.turn {
                Turn::Connecting => {
                    self.turn = Turn::Checking;
                    Action::Run(bt::info(self.mac.as_str()))
                },
                _ => if bt::is_connected(out.as_str()) {
                    self.turn = Turn::Storing;
                    Action::StoreStop
                } else {
                    self.turn = Turn::Pausing;
                    Action::Sleep(400)
                },
            },
            _ => match self.turn {
                Turn::Pausing => {
                    self.turn = Turn::Gate;
                    Action::LoadStop
                },
                _ => {
                    self.turn = Turn::Ended;
                    Action::Finish
                },
            },
        }
    }
}

/// The background connector waits for what its last action brings.
pub proof fn law_answers_fit(s: SpammerView, e: EventView, answer: EventView)
    requires
        accepts(s, e),
    ensures
        engine::answers(next(s, e).1, answer) == accepts(next(s, e).0, answer),
{
}

/// The background connector asks for the connection only where the stop flag
/// was just read as not set, sets the flag only where the device was just seen
/// up, and comes to its end only by one of the two.
pub proof fn law_ends_by_the_flag_or_the_link(s: SpammerView, e: EventView)
    requires
        accepts(s, e),
    ensures
        next(s, e).0.turn is Connecting ==> e == EventView::Stop(false),
        next(s, e).1 is StoreStop ==> s.turn is Checking && bt::link_up(e->Output_0),
        next(s, e).0.turn is Ended && !(s.turn is Ended) ==> {
            ||| e == EventView::Stop(true)
            ||| s.turn is Storing
        },
{
}

/// How many events the background connector can still take once the stop flag
/// is set.
pub open spec fn turns_left(turn: Turn) -> nat {
    match turn {
        Turn::Connecting => 4,
        Turn::Checking => 3,
        Turn::Pausing => 2,
        Turn::Gate => 1,
        Turn::Storing => 1,
        Turn::Ended => 0,
    }
}

/// Once the stop flag is set the background connector comes to its end.
pub proof fn law_ends_once_stopped(s: SpammerView, e: EventView)
    requires
        accepts(s, e),
        e is Stop ==> e->Stop_0,
        !(s.turn is Ended),
    ensures
        turns_left(next(s, e).0.turn) < turns_left(s.turn),
{
}

/// What the background connector asks for, turn by turn: the flag, the
/// connection, a look, and then a pause, over and over, until the flag is set or
/// the look finds the device up.
pub proof fn law_turns(s: SpammerView, out: Seq<char>)
    ensures
        s.turn is Gate ==> {
            &&& next(s, EventView::Stop(false)) == (
                SpammerView { mac: s.mac, turn: Turn::Connecting },
                ActionView::Run(seq!["6"@, "bluetoothctl"@, "connect"@, s.mac]),
            )
            &&& next(s, EventView::Stop(true)) == (
                SpammerView { mac: s.mac, turn: Turn::Ended },
                ActionView::Finish,
            )
        },
        s.turn is Connecting ==> next(s, EventView::Output(out)) == (
            SpammerView { mac: s.mac, turn: Turn::Checking },
            ActionView::Run(seq!["4"@, "bluetoothctl"@, "info"@, s.mac]),
        ),
        s.turn is Checking && bt::link_up(out) ==> next(s, EventView::Output(out)) == (
            SpammerView { mac: s.mac, turn: Turn::Storing },
            ActionView::StoreStop,
        ),
        s.turn is Checking && !bt::link_up(out) ==> next(s, EventView::Output(out)) == (
            SpammerView { mac: s.mac, turn: Turn::Pausing },
            ActionView::Sleep(400),
        ),
        s.turn is Pausing ==> next(s, EventView::Done) == (
            SpammerView { mac: s.mac, turn: Turn::Gate },
            ActionView::LoadStop,
        ),
        s.turn is Storing || s.turn is Ended ==> next(s, EventView::Done) == (
            SpammerView { mac: s.mac, turn: Turn::Ended },
            ActionView::Finish,
        ),
{
    number::lemma_small_numbers();
    bt::law_commands(seq![], s.mac, "connect"@, 6, 0);
    bt::law_commands(seq![], s.mac, "info"@, 4, 0);
}

/// The background connector takes the answer to what it asked for, and no other.
pub proof fn law_takes_every_answer(s: SpammerView, stop: bool, out: Seq<char>)
    ensures
        s.turn is Gate <==> accepts(s, EventView::Stop(stop)),
        s.turn is Connecting || s.turn is Checking <==> accepts(s, EventView::Output(out)),
        s.turn is Storing || s.turn is Pausing || s.turn is Ended <==> accepts(s, EventView::Done),
{
}

} // verus!
