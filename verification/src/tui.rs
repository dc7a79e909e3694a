//! The state of the interactive manager, and what keys, clicks and news do to
//! it.

use crate::bt::{self, Adapter, AdapterView, Command, Device, DeviceView};
use crate::engine::{Progress, ProgressView};
use crate::layout::{self, Rect};
use crate::{sysfs, text};
use vstd::prelude::*;

verus! {

/// What a key or a button asks for.
#[derive(Clone, Copy, Debug, PartialEq, Eq, Structural)]
pub enum Action {
    Connect,
    Disconnect,
    Pair,
    Remove,
    ToggleTrust,
    ToggleScan,
    SetDefault,
    Quit,
}

/// A button, and the cells that it covers: the columns from `x0` up to but not
/// including `x1`, in the row `y`.
#[derive(Clone, Copy, Debug, PartialEq, Eq, Structural)]
pub struct Button {
    pub action: Action,
    pub x0: u16,
    pub x1: u16,
    pub y: u16,
}

/// Which row of the list is selected, and which is shown first.
#[derive(Clone, Copy, Debug, PartialEq, Eq, Structural)]
pub struct ListState {
    pub selected: Option<usize>,
    pub offset: usize,
}

/// The list with that row selected. A list without a selection is shown from
/// its start.
pub open spec fn select(l: ListState, index: Option<usize>) -> ListState {
    ListState {
        selected: index,
        offset: if index is None {
            0
        } else {
            l.offset
        },
    }
}

impl ListState {
    /// Selects a row, or none.
    pub fn select(&mut self, index: Option<usize>)
        ensures
            *final(self) == select(*old(self), index),
    {
        self.selected = index;
        if index.is_none() {
            self.offset = 0;
        }
    }
}

/// A key.
#[derive(Clone, Copy, Debug, PartialEq, Eq, Structural)]
pub enum Key {
    Char(char),
    Up,
    Down,
    Enter,
    Esc,
    Other,
}

/// What the mouse did.
#[derive(Clone, Copy, Debug, PartialEq, Eq, Structural)]
pub enum Mouse {
    LeftDown,
    ScrollDown,
    ScrollUp,
    Other,
}

/// What came from the terminal.
#[derive(Clone, Copy, Debug, PartialEq, Eq, Structural)]
pub enum Input {
    /// A key, and whether it was pressed, not held or let go.
    Key { key: Key, press: bool },
    Mouse { mouse: Mouse, col: u16, row: u16 },
    Other,
}

/// What the program is to do.
pub enum Effect {
    /// Start an attempt to connect the device.
    StartEngine(String),
    /// Set the stop flag of the attempt.
    StopEngine,
    /// Run the commands in the background, one after the other.
    Background(Vec<Command>),
    /// Start scanning.
    StartScan,
    /// End the scan, if it runs, and then run the command.
    StopScan(Command),
    /// Write the default device to its file, and bring the result.
    SaveDefault(String),
    /// Set the stop flag of the background refresh.
    StopRefresh,
}

/// What the program is to do, its texts as sequences of characters.
pub enum EffectView {
    StartEngine(Seq<char>),
    StopEngine,
    Background(Seq<Seq<Seq<char>>>),
    StartScan,
    StopScan(Seq<Seq<char>>),
    SaveDefault(Seq<char>),
    StopRefresh,
}

/// The views of a vector of commands.
pub open spec fn command_views(v: Seq<Command>) -> Seq<Seq<Seq<char>>> {
    Seq::new(v.len(), |i: int| v[i]@)
}

impl View for Effect {
    type V = EffectView;

    open spec fn view(&self) -> EffectView {
        match self {
            Effect::StartEngine(mac) => EffectView::StartEngine(mac@),
            Effect::StopEngine => EffectView::StopEngine,
            Effect::Background(c) => EffectView::Background(command_views(c@)),
            Effect::StartScan => EffectView::StartScan,
            Effect::StopScan(c) => EffectView::StopScan(c@),
            Effect::SaveDefault(mac) => EffectView::SaveDefault(mac@),
            Effect::StopRefresh => EffectView::StopRefresh,
        }
    }
}

/// The view of an optional effect.
pub open spec fn opt_effect(o: Option<Effect>) -> Option<EffectView> {
    match o {
        Some(e) => Some(e@),
        None => None,
    }
}

/// The state of the manager.
pub struct App {
    pub devices: Vec<Device>,
    pub adapter: Adapter,
    pub list_state: ListState,
    pub default_mac: Option<String>,
    pub scanning: bool,
    pub logs: Vec<String>,
    pub status: String,
    pub should_quit: bool,
    /// The device that an attempt is under way for.
    pub connecting: Option<String>,
    /// Where the list was drawn.
    pub list_area: Rect,
    /// Where the buttons were drawn.
    pub buttons: Vec<Button>,
}

/// The state of the manager, its texts as sequences of characters.
#[verifier::ext_equal]
pub struct AppView {
    pub devices: Seq<DeviceView>,
    pub adapter: AdapterView,
    pub list_state: ListState,
    pub default_mac: Option<Seq<char>>,
    pub scanning: bool,
    pub logs: Seq<Seq<char>>,
    pub status: Seq<char>,
    pub should_quit: bool,
    pub connecting: Option<Seq<char>>,
    pub list_area: Rect,
    pub buttons: Seq<Button>,
}

impl View for App {
    type V = AppView;

    open spec fn view(&self) -> AppView {
        AppView {
            devices: bt::device_views(self.devices@),
            adapter: self.adapter@,
            list_state: self.list_state,
            default_mac: sysfs::opt_string(self.default_mac),
            scanning: self.scanning,
            logs: text::texts(self.logs@),
            status: self.status@,
            should_quit: self.should_quit,
            connecting: sysfs::opt_string(self.connecting),
            list_area: self.list_area,
            buttons: self.buttons@,
        }
    }
}

// ---- the log ----------------------------------------------------------------
/// How many lines the log keeps.
pub const LOG_LINES: usize = 300;

/// The lines that the log keeps: the newest.
pub open spec fn kept(logs: Seq<Seq<char>>) -> Seq<Seq<char>> {
    if logs.len() > LOG_LINES {
        logs.skip(logs.len() - LOG_LINES)
    } else {
        logs
    }
}

/// The log with one more line.
pub open spec fn logged(v: AppView, line: Seq<char>) -> AppView {
    AppView { logs: kept(v.logs.push(line)), ..v }
}

/// Drops the oldest lines that are too many.
fn keep_newest(logs: &mut Vec<String>)
    ensures
        text::texts(final(logs)@) == kept(text::texts(old(logs)@)),
{
    let ghost all = text::texts(logs@);
    assert(all.skip(0) == all);
    while logs.len() > LOG_LINES
        invariant
            logs@.len() <= all.len(),
            text::texts(logs@) == all.skip(all.len() - logs@.len()),
            logs@.len() >= LOG_LINES || logs@.len() == all.len(),
        decreases logs@.len(),
    {
        let ghost before = logs@;
        let _ = logs.remove(0);
        assert(text::texts(logs@) == text::texts(before).skip(1));
    }
}

// ---- the selection ----------------------------------------------------------
/// The selected device, if there is one.
pub open spec fn selected(v: AppView) -> Option<DeviceView> {
    match v.list_state.selected {
        Some(i) => if i < v.devices.len() {
            Some(v.devices[i as int])
        } else {
            None
        },
        None => None,
    }
}

/// The address of the selected device, if there is one.
pub open spec fn selected_address(v: AppView) -> Option<Seq<char>> {
    match selected(v) {
        Some(d) => Some(d.mac),
        None => None,
    }
}

/// The manager with the selection moved by `delta` rows, from the end to the
/// start and back. Without a selection the first row is where it starts from.
pub open spec fn moved(v: AppView, delta: int) -> AppView {
    if v.devices.len() == 0 {
        v
    } else {
        let from: int = match v.list_state.selected {
            Some(i) => i as int,
            None => 0,
        };
        AppView {
            list_state: select(
                v.list_state,
                Some(((from + delta) % (v.devices.len() as int)) as usize),
            ),
            ..v
        }
    }
}

/// The manager with a selection that the list has.
pub open spec fn clamped(v: AppView) -> AppView {
    let n = v.devices.len();
    if n == 0 {
        AppView { list_state: select(v.list_state, None), ..v }
    } else if v.list_state.selected is None || v.list_state.selected->0 >= n {
        AppView { list_state: select(v.list_state, Some((n - 1) as usize)), ..v }
    } else {
        v
    }
}

/// The view of an optional device.
pub open spec fn opt_device(o: Option<Device>) -> Option<DeviceView> {
    match o {
        Some(d) => Some(d@),
        None => None,
    }
}

// ---- actions ----------------------------------------------------------------
/// Starting an attempt for the selected device, or ending the one that is under
/// way, whatever is selected.
pub open spec fn start_connect(v: AppView) -> (AppView, Option<EffectView>) {
    if v.connecting is Some {
        (AppView { status: "canceling…"@, ..v }, Some(EffectView::StopEngine))
    } else {
        match selected_address(v) {
            None => (v, None),
            Some(mac) => (
                logged(
                    AppView {
                        connecting: Some(mac),
                        status: "forcing "@ + mac + " to connect…"@,
                        ..v
                    },
                    "▶ aggressive connect → "@ + mac,
                ),
                Some(EffectView::StartEngine(mac)),
            ),
        }
    }
}

/// Starting to scan, or ending it.
pub open spec fn toggle_scan(v: AppView) -> (AppView, Option<EffectView>) {
    if v.scanning {
        (
            AppView { scanning: false, status: "scan off"@, ..v },
            Some(EffectView::StopScan(bt::bt_argv(seq!["scan"@, "off"@], 3))),
        )
    } else {
        (
            AppView { scanning: true, status: "scanning…"@, ..v },
            Some(EffectView::StartScan),
        )
    }
}

/// The actions that only run commands on the selected device.
pub open spec fn spawn_action(v: AppView, action: Action) -> (AppView, Option<EffectView>) {
    match selected(v) {
        None => (v, None),
        Some(d) => match action {
            Action::Disconnect => (
                AppView { status: "disconnecting "@ + d.mac, ..v },
                Some(EffectView::Background(seq![bt::on_device("disconnect"@, d.mac, 6)])),
            ),
            Action::Pair => (
                AppView { status: "pairing "@ + d.mac, ..v },
                Some(
                    EffectView::Background(
                        seq![
                            bt::on_device("pair"@, d.mac, 12),
                            bt::on_device("trust"@, d.mac, 3),
                        ],
                    ),
                ),
            ),
            Action::Remove => (
                AppView { status: "removing "@ + d.mac, ..v },
                Some(EffectView::Background(seq![bt::on_device("remove"@, d.mac, 6)])),
            ),
            Action::ToggleTrust => (
                AppView { status: bt::trust_word(!d.trusted) + " "@ + d.mac, ..v },
                Some(
                    EffectView::Background(
                        seq![bt::on_device(bt::trust_word(!d.trusted), d.mac, 3)],
                    ),
                ),
            ),
            _ => (v, None),
        },
    }
}

/// Making the selected device the default.
pub open spec fn set_default(v: AppView) -> (AppView, Option<EffectView>) {
    match selected_address(v) {
        None => (v, None),
        Some(mac) => (v, Some(EffectView::SaveDefault(mac))),
    }
}

/// The manager once the default device has been written, or could not be.
pub open spec fn default_saved(
    v: AppView,
    mac: Seq<char>,
    failure: Option<Seq<char>>,
) -> AppView {
    match failure {
        None => logged(
            AppView { default_mac: Some(mac), status: "★ default set → "@ + mac, ..v },
            "★ default device is now "@ + mac + " (btkick connects it directly)"@,
        ),
        Some(e) => AppView { status: "could not save default: "@ + e, ..v },
    }
}

/// What an action does.
pub open spec fn act(v: AppView, action: Action) -> (AppView, Option<EffectView>) {
    match action {
        Action::Connect => start_connect(v),
        Action::ToggleScan => toggle_scan(v),
        Action::SetDefault => set_default(v),
        Action::Quit => (AppView { should_quit: true, ..v }, None),
        _ => spawn_action(v, action),
    }
}

/// The action that a key stands for, if it stands for one.
pub open spec fn key_action(key: Key) -> Option<Action> {
    match key {
        Key::Esc => Some(Action::Quit),
        Key::Enter => Some(Action::Connect),
        Key::Char(c) => if c == 'q' {
            Some(Action::Quit)
        } else if c == 'c' {
            Some(Action::Connect)
        } else if c == 'd' {
            Some(Action::Disconnect)
        } else if c == 'p' {
            Some(Action::Pair)
        } else if c == 'r' {
            Some(Action::Remove)
        } else if c == 't' {
            Some(Action::ToggleTrust)
        } else if c == 's' {
            Some(Action::ToggleScan)
        } else if c == 'f' || c == '*' {
            Some(Action::SetDefault)
        } else {
            None
        },
        _ => None,
    }
}

/// What a key does.
pub open spec fn on_key(v: AppView, key: Key) -> (AppView, Option<EffectView>) {
    if key == Key::Up || key == Key::Char('k') {
        (moved(v, -1), None)
    } else if key == Key::Down || key == Key::Char('j') {
        (moved(v, 1), None)
    } else {
        match key_action(key) {
            Some(action) => act(v, action),
            None => (v, None),
        }
    }
}

/// Whether a button covers a cell.
pub open spec fn covers(b: Button, col: u16, row: u16) -> bool {
    row == b.y && b.x0 <= col < b.x1
}

/// The action of the first button that covers a cell.
pub open spec fn button_at(buttons: Seq<Button>, col: u16, row: u16) -> Option<Action>
    decreases buttons.len(),
{
    if buttons.len() == 0 {
        None
    } else if covers(buttons[0], col, row) {
        Some(buttons[0].action)
    } else {
        button_at(buttons.skip(1), col, row)
    }
}

/// Whether a cell lies inside the border of an area.
pub open spec fn inside(area: Rect, col: u16, row: u16) -> bool {
    &&& area.x < col && col + 1 < area.x + area.width
    &&& area.y < row && row + 1 < area.y + area.height
}

/// What a click does: a button acts, and a row of the list is selected.
pub open spec fn click(v: AppView, col: u16, row: u16) -> (AppView, Option<EffectView>) {
    match button_at(v.buttons, col, row) {
        Some(action) => act(v, action),
        None => {
            let index = v.list_state.offset + (row - v.list_area.y - 1);
            if inside(v.list_area, col, row) && index < v.devices.len() {
                (
                    AppView { list_state: select(v.list_state, Some(index as usize)), ..v },
                    None,
                )
            } else {
                (v, None)
            }
        },
    }
}

/// What the mouse does.
pub open spec fn on_mouse(
    v: AppView,
    mouse: Mouse,
    col: u16,
    row: u16,
) -> (AppView, Option<EffectView>) {
    match mouse {
        Mouse::LeftDown => click(v, col, row),
        Mouse::ScrollDown => (moved(v, 1), None),
        Mouse::ScrollUp => (moved(v, -1), None),
        Mouse::Other => (v, None),
    }
}

/// What came from the terminal does.
pub open spec fn on_input(v: AppView, input: Input) -> (AppView, Option<EffectView>) {
    match input {
        Input::Key { key, press } => if press {
            on_key(v, key)
        } else {
            (v, None)
        },
        Input::Mouse { mouse, col, row } => on_mouse(v, mouse, col, row),
        Input::Other => (v, None),
    }
}

// ---- news -------------------------------------------------------------------
/// What one piece of news of the attempt does.
pub open spec fn heard(v: AppView, p: ProgressView) -> AppView {
    match p {
        ProgressView::Log(m) => AppView { logs: v.logs.push(m), ..v },
        ProgressView::Connected(s) => AppView {
            logs: v.logs.push("✔ connected in "@ + s + "s"@),
            status: "connected in "@ + s + "s"@,
            ..v
        },
        ProgressView::GaveUp => AppView {
            logs: v.logs.push("✘ canceled"@),
            status: "canceled"@,
            ..v
        },
    }
}

/// What all the news of the attempt does, taken in order.
pub open spec fn heard_all(v: AppView, news: Seq<ProgressView>) -> AppView
    decreases news.len(),
{
    if news.len() == 0 {
        v
    } else {
        heard(heard_all(v, news.drop_last()), news.last())
    }
}

/// Whether the news say that the attempt is over.
pub open spec fn is_final(news: Seq<ProgressView>) -> bool {
    exists|i: int| 0 <= i < news.len() && !(#[trigger] news[i] is Log)
}

/// What the news of the attempt do. Without an attempt there are none.
pub open spec fn drained(v: AppView, news: Seq<ProgressView>) -> AppView {
    if v.connecting is None {
        v
    } else {
        let w = heard_all(v, news);
        AppView {
            logs: kept(w.logs),
            connecting: if is_final(news) {
                None
            } else {
                v.connecting
            },
            ..w
        }
    }
}

/// The views of a vector of news.
pub open spec fn news_views(v: Seq<Progress>) -> Seq<ProgressView> {
    Seq::new(v.len(), |i: int| v[i]@)
}

/// The manager at its start.
pub open spec fn opened(
    devices: Seq<DeviceView>,
    adapter: AdapterView,
    default_mac: Option<Seq<char>>,
) -> AppView {
    AppView {
        devices,
        adapter,
        list_state: ListState {
            selected: if devices.len() > 0 {
                Some(0)
            } else {
                None
            },
            offset: 0,
        },
        default_mac,
        scanning: false,
        logs: seq!["welcome to btkick — Bluetooth manager"@],
        status: seq![],
        should_quit: false,
        connecting: None,
        list_area: layout::nowhere(),
        buttons: seq![],
    }
}

/// What is left to do when the manager is left.
pub open spec fn left(v: AppView, scan_runs: bool) -> Seq<EffectView> {
    seq![EffectView::StopRefresh] + (if v.connecting is Some {
        seq![EffectView::StopEngine]
    } else {
        seq![]
    }) + (if scan_runs {
        seq![EffectView::StopScan(bt::bt_argv(seq!["scan"@, "off"@], 3))]
    } else {
        seq![]
    })
}

/// The views of a vector of effects.
pub open spec fn effect_views(v: Seq<Effect>) -> Seq<EffectView> {
    Seq::new(v.len(), |i: int| v[i]@)
}

/// The command that ends a scan.
fn scan_off() -> (c: Command)
    ensures
        c@ == bt::bt_argv(seq!["scan"@, "off"@], 3),
{
    let c = bt::bt(&["scan", "off"], 3);
    assert(c@ == bt::bt_argv(seq!["scan"@, "off"@], 3));
    c
}

/// One command to run in the background.
fn background(c: Command) -> (e: Effect)
    ensures
        e@ == EffectView::Background(seq![c@]),
{
    let v: Vec<Command> = vec![c];
    assert(command_views(v@) == seq![c@]);
    Effect::Background(v)
}

/// The action that a key stands for, if it stands for one.
fn action_of(key: Key) -> (r: Option<Action>)
    ensures
        r == key_action(key),
{
    match key {
        Key::Esc => Some(Action::Quit),
        Key::Enter => Some(Action::Connect),
        Key::Char(c) => match c {
            'q' => Some(Action::Quit),
            'c' => Some(Action::Connect),
            'd' => Some(Action::Disconnect),
            'p' => Some(Action::Pair),
            'r' => Some(Action::Remove),
            't' => Some(Action::ToggleTrust),
            's' => Some(Action::ToggleScan),
            'f' => Some(Action::SetDefault),
            '*' => Some(Action::SetDefault),
            _ => None,
        },
        _ => None,
    }
}

impl App {
    /// The manager at its start, with the first device selected.
    pub fn new(devices: Vec<Device>, adapter: Adapter, default_mac: Option<String>) -> (r: Self)
        ensures
            r@ == opened(
                bt::device_views(devices@),
                adapter@,
                sysfs::opt_string(default_mac),
            ),
    {
        let selected: Option<usize> = if devices.len() > 0 {
            Some(0)
        } else {
            None
        };
        let logs: Vec<String> = vec!["welcome to btkick — Bluetooth manager".to_owned()];
        let r = App {
            devices,
            adapter,
            list_state: ListState { selected, offset: 0 },
            default_mac,
            scanning: false,
            logs,
            status: String::new(),
            should_quit: false,
            connecting: None,
            list_area: Rect::default(),
            buttons: Vec::new(),
        };
        assert(r@.logs == seq!["welcome to btkick — Bluetooth manager"@]);
        assert(r@.buttons == Seq::<Button>::empty());
        r
    }

    /// Takes in what the background refresh found.
    pub fn refresh(&mut self, devices: Vec<Device>, adapter: Adapter)
        ensures
            final(self)@ == (AppView {
                devices: bt::device_views(devices@),
                adapter: adapter@,
                ..old(self)@
            }),
    {
        self.devices = devices;
        self.adapter = adapter;
    }

    /// The selected device, if there is one.
    pub fn selected_device(&self) -> (r: Option<Device>)
        ensures
            opt_device(r) == selected(self@),
    {
        match self.list_state.selected {
            Some(i) => if i < self.devices.len() {
                Some(self.devices[i].clone())
            } else {
                None
            },
            None => None,
        }
    }

    /// The address of the selected device, if there is one.
    pub fn selected_mac(&self) -> (r: Option<String>)
        ensures
            sysfs::opt_string(r) == selected_address(self@),
    {
        match self.selected_device() {
            Some(d) => Some(d.mac),
            None => None,
        }
    }

    /// Adds a line to the log.
    pub fn log(&mut self, line: String)
        ensures
            final(self)@ == logged(old(self)@, line@),
    {
        self.logs.push(line);
        assert(text::texts(self.logs@) == old(self)@.logs.push(line@));
        keep_newest(&mut self.logs);
    }

    /// Moves the selection by `delta` rows.
    pub fn move_selection(&mut self, delta: i32)
        ensures
            final(self)@ == moved(old(self)@, delta as int),
    {
        let n: usize = self.devices.len();
        if n == 0 {
            return;
        }
        let from: usize = match self.list_state.selected {
            Some(i) => i,
            None => 0,
        };
        let a: usize = from % n;
        let d: usize = if delta >= 0 {
            (delta as usize) % n
        } else {
            n - 1 - ((-(delta + 1)) as usize) % n
        };
        let next: usize = if a >= n - d {
            a - (n - d)
        } else {
            a + d
        };
        proof {
            lemma_wraps(from as int, delta as int, n as int, a as int, d as int);
        }
        self.list_state.select(Some(next));
    }

    /// Keeps the selection on a row that the list has.
    pub fn keep_selection(&mut self)
        ensures
            final(self)@ == clamped(old(self)@),
    {
        let n: usize = self.devices.len();
        if n == 0 {
            self.list_state.select(None);
        } else {
            let lost: bool = match self.list_state.selected {
                Some(i) => i >= n,
                None => true,
            };
            if lost {
                self.list_state.select(Some(n - 1));
            }
        }
    }

    /// Takes in the news of the attempt.
    pub fn drain_progress(&mut self, news: Vec<Progress>)
        ensures
            final(self)@ == drained(old(self)@, news_views(news@)),
    {
        if self.connecting.is_none() {
            return;
        }
        let ghost v = self@;
        let ghost all = news_views(news@);
        let mut finished: bool = false;
        let mut i: usize = 0;
        assert(all.take(0).len() == 0);
        while i < news.len()
            invariant
                i <= news@.len(),
                all == news_views(news@),
                self@ == heard_all(v, all.take(i as int)),
                finished == is_final(all.take(i as int)),
            decreases news@.len() - i,
        {
            proof {
                assert(all.take(i + 1).drop_last() == all.take(i as int));
                assert(all.take(i + 1).last() == news@[i as int]@);
                lemma_final_grows(all, i as int);
            }
            let ghost before = self@;
            match &news[i] {
                Progress::Log(m) => {
                    self.logs.push(m.clone());
                    assert(self@.logs == before.logs.push(m@));
                },
                Progress::Connected(s) => {
                    let line: String = "✔ connected in ".to_owned().concat(s.as_str()).concat("s");
                    self.status = "connected in ".to_owned().concat(s.as_str()).concat("s");
                    assert(line@ == "✔ connected in "@ + s@ + "s"@);
                    self.logs.push(line);
                    assert(self@.logs == before.logs.push("✔ connected in "@ + s@ + "s"@));
                    finished = true;
                },
                Progress::GaveUp => {
                    self.logs.push("✘ canceled".to_owned());
                    self.status = "canceled".to_owned();
                    assert(self@.logs == before.logs.push("✘ canceled"@));
                    finished = true;
                },
            }
            i += 1;
        }
        assert(all.take(all.len() as int) == all);
        proof {
            lemma_heard_keeps(v, all);
        }
        keep_newest(&mut self.logs);
        if finished {
            self.connecting = None;
        }
    }

    /// Starts an attempt for the selected device, or ends the one that is under
    /// way, whatever is selected.
    pub fn start_connect(&mut self) -> (e: Option<Effect>)
        ensures
            (final(self)@, opt_effect(e)) == start_connect(old(self)@),
    {
        if self.connecting.is_some() {
            self.status = "canceling…".to_owned();
            return Some(Effect::StopEngine);
        }
        match self.selected_mac() {
            None => None,
            Some(mac) => {
                self.status = "forcing ".to_owned().concat(mac.as_str()).concat(" to connect…");
                self.connecting = Some(mac.clone());
                self.log("▶ aggressive connect → ".to_owned().concat(mac.as_str()));
                Some(Effect::StartEngine(mac))
            },
        }
    }

    /// Starts to scan, or ends it.
    pub fn toggle_scan(&mut self) -> (e: Option<Effect>)
        ensures
            (final(self)@, opt_effect(e)) == toggle_scan(old(self)@),
    {
        if self.scanning {
            self.scanning = false;
            self.status = "scan off".to_owned();
            Some(Effect::StopScan(scan_off()))
        } else {
            self.scanning = true;
            self.status = "scanning…".to_owned();
            Some(Effect::StartScan)
        }
    }

    /// Runs an action that only runs commands on the selected device.
    pub fn spawn_action(&mut self, action: Action) -> (e: Option<Effect>)
        ensures
            (final(self)@, opt_effect(e)) == spawn_action(old(self)@, action),
    {
        match self.selected_device() {
            None => None,
            Some(d) => {
                let mac: &str = d.mac.as_str();
                match action {
                    Action::Disconnect => {
                        self.status = "disconnecting ".to_owned().concat(mac);
                        Some(background(bt::disconnect(mac)))
                    },
                    Action::Pair => {
                        self.status = "pairing ".to_owned().concat(mac);
                        let (first, second) = bt::pair(mac);
                        let v: Vec<Command> = vec![first, second];
                        assert(command_views(v@) == seq![first@, second@]);
                        Some(Effect::Background(v))
                    },
                    Action::Remove => {
                        self.status = "removing ".to_owned().concat(mac);
                        Some(background(bt::remove(mac)))
                    },
                    Action::ToggleTrust => {
                        let word: &str = if d.trusted {
                            "untrust"
                        } else {
                            "trust"
                        };
                        self.status = word.to_owned().concat(" ").concat(mac);
                        Some(background(bt::set_trust(mac, !d.trusted)))
                    },
                    _ => None,
                }
            },
        }
    }

    /// Makes the selected device the default: its file has to be written.
    pub fn set_default(&self) -> (e: Option<Effect>)
        ensures
            (self@, opt_effect(e)) == set_default(self@),
    {
        match self.selected_mac() {
            None => None,
            Some(mac) => Some(Effect::SaveDefault(mac)),
        }
    }

    /// Takes in whether the default device could be written, or why not.
    pub fn default_saved(&mut self, mac: String, failure: Option<String>)
        ensures
            final(self)@ == default_saved(old(self)@, mac@, sysfs::opt_string(failure)),
    {
        match failure {
            None => {
                self.status = "★ default set → ".to_owned().concat(mac.as_str());
                let line: String = "★ default device is now ".to_owned().concat(
                    mac.as_str(),
                ).concat(" (btkick connects it directly)");
                self.default_mac = Some(mac);
                self.log(line);
            },
            Some(e) => {
                self.status = "could not save default: ".to_owned().concat(e.as_str());
            },
        }
    }

    /// Runs an action.
    pub fn do_action(&mut self, action: Action) -> (e: Option<Effect>)
        ensures
            (final(self)@, opt_effect(e)) == act(old(self)@, action),
    {
        match action {
            Action::Connect => self.start_connect(),
            Action::ToggleScan => self.toggle_scan(),
            Action::SetDefault => self.set_default(),
            Action::Quit => {
                self.should_quit = true;
                None
            },
            _ => self.spawn_action(action),
        }
    }

    /// Takes in a key.
    pub fn on_key(&mut self, key: Key) -> (e: Option<Effect>)
        ensures
            (final(self)@, opt_effect(e)) == on_key(old(self)@, key),
    {
        if key == Key::Up || key == Key::Char('k') {
            self.move_selection(-1);
            None
        } else if key == Key::Down || key == Key::Char('j') {
            self.move_selection(1);
            None
        } else {
            match action_of(key) {
                Some(action) => self.do_action(action),
                None => None,
            }
        }
    }

    /// The action of the first button that covers a cell.
    fn hit(&self, col: u16, row: u16) -> (r: Option<Action>)
        ensures
            r == button_at(self@.buttons, col, row),
    {
        let ghost all = self.buttons@;
        let mut i: usize = 0;
        assert(all.skip(0) == all);
        while i < self.buttons.len()
            invariant
                i <= self.buttons@.len(),
                all == self.buttons@,
                button_at(all, col, row) == button_at(all.skip(i as int), col, row),
            decreases self.buttons@.len() - i,
        {
            let b: Button = self.buttons[i];
            proof {
                assert(all.skip(i as int)[0] == b);
                assert(all.skip(i as int).skip(1) == all.skip(i + 1));
            }
            if row == b.y && col >= b.x0 && col < b.x1 {
                return Some(b.action);
            }
            i += 1;
        }
        None
    }

    /// Takes in a click.
    fn on_click(&mut self, col: u16, row: u16) -> (e: Option<Effect>)
        ensures
            (final(self)@, opt_effect(e)) == click(old(self)@, col, row),
    {
        if let Some(action) = self.hit(col, row) {
            return self.do_action(action);
        }
        let area: Rect = self.list_area;
        let right: u32 = area.x as u32 + area.width as u32;
        let bottom: u32 = area.y as u32 + area.height as u32;
        if col > area.x && col as u32 + 1 < right && row > area.y && row as u32 + 1 < bottom {
            let line: usize = (row - area.y - 1) as usize;
            let n: usize = self.devices.len();
            let offset: usize = self.list_state.offset;
            if offset < n && line < n - offset {
                self.list_state.select(Some(offset + line));
            }
        }
        None
    }

    /// Takes in what the mouse did.
    pub fn on_mouse(&mut self, mouse: Mouse, col: u16, row: u16) -> (e: Option<Effect>)
        ensures
            (final(self)@, opt_effect(e)) == on_mouse(old(self)@, mouse, col, row),
    {
        match mouse {
            Mouse::LeftDown => self.on_click(col, row),
            Mouse::ScrollDown => {
                self.move_selection(1);
                None
            },
            Mouse::ScrollUp => {
                self.move_selection(-1);
                None
            },
            Mouse::Other => None,
        }
    }

    /// Takes in what came from the terminal.
    pub fn on_input(&mut self, input: Input) -> (e: Option<Effect>)
        ensures
            (final(self)@, opt_effect(e)) == on_input(old(self)@, input),
    {
        match input {
            Input::Key { key, press } => if press {
                self.on_key(key)
            } else {
                None
            },
            Input::Mouse { mouse, col, row } => self.on_mouse(mouse, col, row),
            Input::Other => None,
        }
    }

    /// What is left to do when the manager is left, given whether a scan runs.
    pub fn cleanup(&self, scan_runs: bool) -> (r: Vec<Effect>)
        ensures
            effect_views(r@) == left(self@, scan_runs),
    {
        let mut r: Vec<Effect> = vec![Effect::StopRefresh];
        if self.connecting.is_some() {
            r.push(Effect::StopEngine);
        }
        if scan_runs {
            r.push(Effect::StopScan(scan_off()));
        }
        assert(effect_views(r@) == left(self@, scan_runs));
        r
    }
}

// ---- the background refresh -------------------------------------------------
/// How many pauses there are between two looks at the devices.
pub const REFRESH_PAUSES: u32 = 12;

/// How long each of these pauses is, in milliseconds.
pub const REFRESH_PAUSE_MS: u64 = 100;

/// What the background refresh is to do next.
#[derive(Clone, Copy, Debug, PartialEq, Eq, Structural)]
pub enum Refresh {
    /// Look at the devices and the adapter.
    Look,
    /// Do nothing for some milliseconds.
    Pause(u64),
    /// Nothing is left to do.
    End,
}

/// What the background refresh is to do next, after so many pauses since the
/// last look, and given its stop flag. The flag is looked at before every pause,
/// so that the refresh ends soon.
pub fn refresh_next(pauses: u32, stop: bool) -> (r: (u32, Refresh))
    ensures
        r == (if stop {
            (pauses, Refresh::End)
        } else if pauses < REFRESH_PAUSES {
            ((pauses + 1) as u32, Refresh::Pause(REFRESH_PAUSE_MS))
        } else {
            (0u32, Refresh::Look)
        }),
{
    if stop {
        (pauses, Refresh::End)
    } else if pauses < REFRESH_PAUSES {
        (pauses + 1, Refresh::Pause(REFRESH_PAUSE_MS))
    } else {
        (0, Refresh::Look)
    }
}

/// Adding remainders wraps as adding the numbers does.
proof fn lemma_wraps(from: int, delta: int, n: int, a: int, d: int)
    requires
        n > 0,
        from >= 0,
        a == from % n,
        d == if delta >= 0 {
            delta % n
        } else {
            n - 1 - (-(delta + 1)) % n
        },
    ensures
        (from + delta) % n == (if a >= n - d {
            a - (n - d)
        } else {
            a + d
        }),
{
    let q1 = from / n;
    vstd::arithmetic::div_mod::lemma_fundamental_div_mod(from, n);
    let q2 = if delta >= 0 {
        delta / n
    } else {
        -1 - (-(delta + 1)) / n
    };
    assert(delta == n * q2 + d) by {
        if delta >= 0 {
            vstd::arithmetic::div_mod::lemma_fundamental_div_mod(delta, n);
        } else {
            let m = -(delta + 1);
            vstd::arithmetic::div_mod::lemma_fundamental_div_mod(m, n);
            vstd::arithmetic::mul::lemma_mul_is_distributive_sub(n, -1, m / n);
            vstd::arithmetic::mul::lemma_mul_unary_negation(n, 1);
        }
    }
    assert(0 <= d < n) by {
        vstd::arithmetic::div_mod::lemma_mod_bound(delta, n);
        vstd::arithmetic::div_mod::lemma_mod_bound(-(delta + 1), n);
    }
    vstd::arithmetic::div_mod::lemma_mod_bound(from, n);
    vstd::arithmetic::mul::lemma_mul_is_distributive_add(n, q1, q2);
    if a >= n - d {
        vstd::arithmetic::mul::lemma_mul_is_distributive_add(n, q1 + q2, 1);
        vstd::arithmetic::div_mod::lemma_fundamental_div_mod_converse(from + delta, n, q1 + q2 + 1, a - (n - d));
    } else {
        vstd::arithmetic::div_mod::lemma_fundamental_div_mod_converse(from + delta, n, q1 + q2, a + d);
    }
}

/// News stay final when more follow.
proof fn lemma_final_grows(news: Seq<ProgressView>, i: int)
    requires
        0 <= i < news.len(),
    ensures
        is_final(news.take(i + 1)) == (is_final(news.take(i)) || !(news[i] is Log)),
{
    let a = news.take(i);
    let b = news.take(i + 1);
    if is_final(a) {
        let k = choose|k: int| 0 <= k < a.len() && !(#[trigger] a[k] is Log);
        assert(b[k] == a[k]);
    }
    if !(news[i] is Log) {
        assert(b[i] == news[i]);
    }
    if is_final(b) {
        let k = choose|k: int| 0 <= k < b.len() && !(#[trigger] b[k] is Log);
        if k < i {
            assert(a[k] == b[k]);
        }
    }
}

/// News only touch the log and the status.
proof fn lemma_heard_keeps(v: AppView, news: Seq<ProgressView>)
    ensures
        ({
            let w = heard_all(v, news);
            w == (AppView { logs: w.logs, status: w.status, ..v })
        }),
    decreases news.len(),
{
    if news.len() > 0 {
        lemma_heard_keeps(v, news.drop_last());
    }
}

} // verus!
