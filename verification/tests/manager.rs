use btkick::bt::{Adapter, Device};
use btkick::config::{read_default, write_default};
use btkick::engine::Progress;
use btkick::layout::Rect;
use btkick::tui::{
    refresh_next, Action, App, Button, Effect, Input, Key, ListState, Mouse, Refresh, LOG_LINES, REFRESH_PAUSES,
};

fn device(mac: &str, trusted: bool) -> Device {
    let mut d = Device::default();
    d.mac = mac.to_string();
    d.name = format!("name of {mac}");
    d.trusted = trusted;
    d
}

fn app() -> App {
    App::new(
        vec![device("AA:01", false), device("AA:02", true), device("AA:03", false)],
        Adapter::default(),
        None,
    )
}

fn show(e: Option<Effect>) -> String {
    match e {
        None => "nothing".to_string(),
        Some(Effect::StartEngine(mac)) => format!("start {mac}"),
        Some(Effect::StopEngine) => "stop".to_string(),
        Some(Effect::Background(v)) => {
            let v: Vec<String> = v.into_iter().map(|c| c.argv.join(" ")).collect();
            v.join(" && ")
        }
        Some(Effect::StartScan) => "scan".to_string(),
        Some(Effect::StopScan(c)) => format!("end scan, {}", c.argv.join(" ")),
        Some(Effect::SaveDefault(mac)) => format!("save {mac}"),
        Some(Effect::StopRefresh) => "stop refresh".to_string(),
    }
}

#[test]
fn manager_opens_on_the_first_device() {
    let a = app();
    assert_eq!(a.list_state, ListState { selected: Some(0), offset: 0 });
    assert_eq!(a.logs, ["welcome to btkick — Bluetooth manager"]);
    assert_eq!(a.status, "");
    assert_eq!(a.selected_mac(), Some("AA:01".to_string()));
    assert!(!a.should_quit && !a.scanning && a.connecting.is_none());
    let empty = App::new(Vec::new(), Adapter::default(), Some("X".to_string()));
    assert_eq!(empty.list_state.selected, None);
    assert_eq!(empty.selected_mac(), None);
    assert!(empty.selected_device().is_none());
    assert_eq!(empty.default_mac, Some("X".to_string()));
}

#[test]
fn selection_goes_round() {
    let mut a = app();
    a.on_key(Key::Up);
    assert_eq!(a.list_state.selected, Some(2));
    a.on_key(Key::Down);
    assert_eq!(a.list_state.selected, Some(0));
    a.on_key(Key::Char('j'));
    a.on_key(Key::Char('j'));
    a.on_key(Key::Char('k'));
    assert_eq!(a.list_state.selected, Some(1));
    a.move_selection(-8);
    assert_eq!(a.list_state.selected, Some(2));
    a.move_selection(i32::MIN);
    assert_eq!(a.list_state.selected, Some(((2i64 + i32::MIN as i64).rem_euclid(3)) as usize));
    a.list_state.selected = None;
    a.move_selection(1);
    assert_eq!(a.list_state.selected, Some(1));
    let mut empty = App::new(Vec::new(), Adapter::default(), None);
    empty.move_selection(1);
    assert_eq!(empty.list_state.selected, None);
}

#[test]
fn selection_is_kept_on_the_list() {
    let mut a = app();
    a.list_state = ListState { selected: Some(2), offset: 1 };
    a.refresh(vec![device("AA:09", false)], Adapter::default());
    assert_eq!(a.selected_mac(), None);
    a.keep_selection();
    assert_eq!(a.list_state, ListState { selected: Some(0), offset: 1 });
    a.keep_selection();
    assert_eq!(a.list_state.selected, Some(0));
    a.refresh(Vec::new(), Adapter::default());
    a.keep_selection();
    assert_eq!(a.list_state, ListState { selected: None, offset: 0 });
    a.refresh(vec![device("1", false), device("2", false)], Adapter::default());
    a.keep_selection();
    assert_eq!(a.list_state.selected, Some(1));
}

#[test]
fn log_keeps_the_newest_lines() {
    let mut a = app();
    for i in 0..LOG_LINES + 5 {
        a.log(format!("line {i}"));
    }
    assert_eq!(a.logs.len(), LOG_LINES);
    assert_eq!(a.logs[0], "line 5");
    assert_eq!(a.logs[LOG_LINES - 1], format!("line {}", LOG_LINES + 4));
}

#[test]
fn connect_again_cancels() {
    let mut a = app();
    assert_eq!(show(a.on_key(Key::Enter)), "start AA:01");
    assert_eq!(a.connecting, Some("AA:01".to_string()));
    assert_eq!(a.status, "forcing AA:01 to connect…");
    assert_eq!(a.logs[1], "▶ aggressive connect → AA:01");
    a.on_key(Key::Down);
    assert_eq!(show(a.on_key(Key::Char('c'))), "stop");
    assert_eq!(a.connecting, Some("AA:01".to_string()));
    assert_eq!(a.status, "canceling…");
    a.drain_progress(vec![Progress::Log("x".to_string()), Progress::GaveUp]);
    assert_eq!(a.connecting, None);
    assert_eq!(a.status, "canceled");
    assert_eq!(a.logs[2..], ["x", "✘ canceled"]);
    assert_eq!(show(a.on_key(Key::Char('c'))), "start AA:02");
}

#[test]
fn news_of_the_attempt_are_taken_in() {
    let mut a = app();
    a.drain_progress(vec![Progress::Log("lost".to_string())]);
    assert_eq!(a.logs.len(), 1);
    a.start_connect();
    a.drain_progress(vec![Progress::Log("one".to_string())]);
    assert!(a.connecting.is_some());
    a.drain_progress(vec![Progress::Connected("1.7".to_string()), Progress::Log("late".to_string())]);
    assert_eq!(a.connecting, None);
    assert_eq!(a.status, "connected in 1.7s");
    assert_eq!(a.logs[2..], ["one", "✔ connected in 1.7s", "late"]);
    let mut a = app();
    a.start_connect();
    let many: Vec<Progress> = (0..400).map(|i| Progress::Log(i.to_string())).collect();
    a.drain_progress(many);
    assert_eq!(a.logs.len(), LOG_LINES);
    assert_eq!(a.logs[0], "100");
}

#[test]
fn scan_toggles() {
    let mut a = app();
    assert_eq!(show(a.on_key(Key::Char('s'))), "scan");
    assert!(a.scanning);
    assert_eq!(a.status, "scanning…");
    assert_eq!(show(a.toggle_scan()), "end scan, 3 bluetoothctl scan off");
    assert!(!a.scanning);
    assert_eq!(a.status, "scan off");
}

#[test]
fn actions_run_in_the_background() {
    let mut a = app();
    assert_eq!(show(a.on_key(Key::Char('d'))), "6 bluetoothctl disconnect AA:01");
    assert_eq!(a.status, "disconnecting AA:01");
    assert_eq!(show(a.on_key(Key::Char('p'))), "12 bluetoothctl pair AA:01 && 3 bluetoothctl trust AA:01");
    assert_eq!(a.status, "pairing AA:01");
    assert_eq!(show(a.on_key(Key::Char('r'))), "6 bluetoothctl remove AA:01");
    assert_eq!(a.status, "removing AA:01");
    assert_eq!(show(a.on_key(Key::Char('t'))), "3 bluetoothctl trust AA:01");
    assert_eq!(a.status, "trust AA:01");
    a.on_key(Key::Down);
    assert_eq!(show(a.on_key(Key::Char('t'))), "3 bluetoothctl untrust AA:02");
    assert_eq!(a.status, "untrust AA:02");
    assert_eq!(show(a.spawn_action(Action::Quit)), "nothing");
}

#[test]
fn nothing_selected_does_nothing() {
    let mut a = App::new(Vec::new(), Adapter::default(), None);
    for key in ['c', 'd', 'p', 'r', 't', 'f', '*'] {
        assert_eq!(show(a.on_key(Key::Char(key))), "nothing");
    }
    assert_eq!(a.status, "");
    assert!(a.connecting.is_none());
}

#[test]
fn default_is_saved_and_survives() {
    let mut a = app();
    a.on_key(Key::Down);
    assert_eq!(show(a.on_key(Key::Char('f'))), "save AA:02");
    assert_eq!(a.default_mac, None);
    a.default_saved("AA:02".to_string(), None);
    assert_eq!(a.default_mac, Some("AA:02".to_string()));
    assert_eq!(a.status, "★ default set → AA:02");
    assert_eq!(a.logs[1], "★ default device is now AA:02 (btkick connects it directly)");
    assert_eq!(read_default(Some(write_default("AA:02"))), a.default_mac);
    a.default_saved("AA:03".to_string(), Some("disk full".to_string()));
    assert_eq!(a.default_mac, Some("AA:02".to_string()));
    assert_eq!(a.status, "could not save default: disk full");
    assert_eq!(a.logs.len(), 2);
    assert_eq!(show(a.on_key(Key::Char('*'))), "save AA:02");
}

#[test]
fn keys_quit() {
    for key in [Key::Esc, Key::Char('q')] {
        let mut a = app();
        assert_eq!(show(a.on_key(key)), "nothing");
        assert!(a.should_quit);
    }
    let mut a = app();
    a.on_key(Key::Other);
    a.on_key(Key::Char('x'));
    assert!(!a.should_quit);
}

#[test]
fn only_presses_count() {
    let mut a = app();
    a.on_input(Input::Key { key: Key::Down, press: false });
    a.on_input(Input::Other);
    assert_eq!(a.list_state.selected, Some(0));
    a.on_input(Input::Key { key: Key::Down, press: true });
    assert_eq!(a.list_state.selected, Some(1));
    a.on_input(Input::Mouse { mouse: Mouse::ScrollDown, col: 0, row: 0 });
    assert_eq!(a.list_state.selected, Some(2));
    a.on_input(Input::Mouse { mouse: Mouse::ScrollUp, col: 0, row: 0 });
    a.on_input(Input::Mouse { mouse: Mouse::Other, col: 0, row: 0 });
    assert_eq!(a.list_state.selected, Some(1));
}

#[test]
fn clicks_select_rows_inside_the_frame() {
    let mut a = app();
    a.list_area = Rect { x: 2, y: 3, width: 10, height: 4 };
    let mut click = |col: u16, row: u16| {
        a.list_state = ListState { selected: Some(1), offset: 1 };
        a.on_mouse(Mouse::LeftDown, col, row);
        a.list_state.selected
    };
    assert_eq!(click(3, 4), Some(1));
    assert_eq!(click(10, 5), Some(2));
    assert_eq!(click(2, 5), Some(1));
    assert_eq!(click(11, 5), Some(1));
    assert_eq!(click(5, 3), Some(1));
    assert_eq!(click(5, 6), Some(1));
    a.list_area = Rect { x: 0, y: 0, width: 10, height: 40 };
    a.on_mouse(Mouse::LeftDown, 5, 30);
    assert_eq!(a.list_state.selected, Some(1));
    a.list_area = Rect { x: u16::MAX, y: u16::MAX, width: u16::MAX, height: u16::MAX };
    a.on_mouse(Mouse::LeftDown, u16::MAX, u16::MAX);
    assert_eq!(a.list_state.selected, Some(1));
}

#[test]
fn clicks_on_buttons_act() {
    let mut a = app();
    a.list_area = Rect { x: 0, y: 0, width: 80, height: 40 };
    a.buttons = vec![
        Button { action: Action::ToggleScan, x0: 5, x1: 8, y: 7 },
        Button { action: Action::Quit, x0: 7, x1: 9, y: 7 },
    ];
    assert_eq!(show(a.on_mouse(Mouse::LeftDown, 7, 7)), "scan");
    assert_eq!(show(a.on_mouse(Mouse::LeftDown, 4, 7)), "nothing");
    assert_eq!(show(a.on_mouse(Mouse::LeftDown, 5, 6)), "nothing");
    assert!(!a.should_quit);
    a.on_mouse(Mouse::LeftDown, 8, 7);
    assert!(a.should_quit);
}

#[test]
fn leaving_ends_what_runs() {
    let mut a = app();
    let all = |a: &App, scan: bool| -> Vec<String> {
        a.cleanup(scan).into_iter().map(|e| show(Some(e))).collect()
    };
    assert_eq!(all(&a, false), ["stop refresh"]);
    a.start_connect();
    assert_eq!(all(&a, true), ["stop refresh", "stop", "end scan, 3 bluetoothctl scan off"]);
}

#[test]
fn connect_again_cancels_whatever_is_selected() {
    let mut a = app();
    a.start_connect();
    a.refresh(Vec::new(), Adapter::default());
    a.keep_selection();
    assert_eq!(a.selected_mac(), None);
    assert_eq!(show(a.start_connect()), "stop");
    assert_eq!(a.status, "canceling…");
    assert_eq!(a.connecting, Some("AA:01".to_string()));
    a.status = String::new();
    assert_eq!(show(a.on_key(Key::Enter)), "stop");
    assert_eq!(a.status, "canceling…");
    assert_eq!(a.logs.len(), 2);
}

#[test]
fn refresh_looks_once_in_so_many_pauses() {
    let mut pauses = REFRESH_PAUSES;
    for _ in 0..3 {
        let (next, todo) = refresh_next(pauses, false);
        assert_eq!((next, todo), (0, Refresh::Look));
        pauses = next;
        for _ in 0..12 {
            let (next, todo) = refresh_next(pauses, false);
            assert_eq!(todo, Refresh::Pause(100));
            pauses = next;
        }
    }
    for pauses in [0, 5, 12, u32::MAX] {
        assert_eq!(refresh_next(pauses, true), (pauses, Refresh::End));
    }
    assert_eq!(refresh_next(u32::MAX, false), (0, Refresh::Look));
}
