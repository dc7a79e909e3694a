use btkick::bt::Device;
use btkick::layout::Rect;
use btkick::screen::{compose, render_test, ui, Areas, Screen};
use btkick::tui::{Action, App, Effect, Key, ListState, Mouse};
use btkick::view::{
    bar_cells, battery_str, render_buttons, render_detail, render_device_list, render_header, render_log,
    truncate, Color, Line, Panel,
};

fn area(x: u16, y: u16, width: u16, height: u16) -> Rect {
    Rect { x, y, width, height }
}

fn text(l: &Line) -> String {
    l.spans.iter().map(|s| s.text.as_str()).collect()
}

fn texts(p: &Panel) -> Vec<String> {
    p.lines.iter().map(text).collect()
}

fn draw(app: &mut App) -> Screen {
    ui(app, area(0, 0, 100, 26)).expect("the screen is of ordinary size")
}

#[test]
fn screen_is_divided() {
    let mut app = App::test_app();
    let s = draw(&mut app);
    assert_eq!(s.header.area, area(0, 0, 100, 3));
    assert_eq!(s.devices.area, area(0, 3, 58, 12));
    assert_eq!(s.detail.area, area(58, 3, 42, 12));
    assert_eq!(s.log.area, area(0, 15, 100, 8));
    assert_eq!(s.buttons.area, area(0, 23, 100, 3));
    assert_eq!(app.list_area, s.devices.area);
    assert_eq!(app.buttons.len(), 8);
    assert!(s.detail.wrap);
    assert!(!s.header.wrap && !s.devices.wrap && !s.log.wrap && !s.buttons.wrap);
}

#[test]
fn header_tells_of_the_adapter() {
    let mut app = App::test_app();
    let p = render_header(&app, area(0, 0, 100, 3));
    assert_eq!(p.title, " btkick ");
    assert_eq!(
        texts(&p),
        [" ⬢ hci0 [DE:AD:BE:EF:00:00]  power:on  SCANNING  default:C0:FF:EE:00:AA:01"]
    );
    assert_eq!(p.lines[0].spans[4].fg, Some(Color::Green));
    assert!(p.lines[0].spans[1].bold);
    app.adapter.name = String::new();
    app.adapter.powered = false;
    app.scanning = false;
    app.default_mac = None;
    let p = render_header(&app, area(0, 0, 100, 3));
    assert_eq!(texts(&p), [" ⬢ adapter [DE:AD:BE:EF:00:00]  power:off  idle  default:none"]);
    assert_eq!(p.lines[0].spans[6].fg, Some(Color::DarkGray));
    app.adapter.discovering = true;
    let p = render_header(&app, area(0, 0, 100, 3));
    assert_eq!(p.lines[0].spans[6].text, "SCANNING ");
}

#[test]
fn list_shows_the_devices() {
    let mut app = App::test_app();
    let p = render_device_list(&mut app, area(0, 3, 58, 12));
    assert_eq!(p.title, " devices (2) ");
    assert_eq!(
        texts(&p),
        [
            " ● ★ Wireless Earbuds            paired trusted  97% -54dBm",
            " ○   Wireless Mouse              paired  -71dBm",
        ]
    );
    assert!(p.lines[0].spans[2].bold && !p.lines[1].spans[2].bold);
    assert_eq!(p.lines[0].spans[0].fg, Some(Color::Green));
    assert_eq!(p.lines[1].spans[0].fg, Some(Color::DarkGray));
    app.default_saved("C0:FF:EE:00:BB:02".to_string(), None);
    let p = render_device_list(&mut app, area(0, 3, 58, 12));
    assert_eq!(p.lines[0].spans[1].text, "  ");
    assert_eq!(p.lines[1].spans[1].text, "★ ");
}

#[test]
fn detail_tells_of_the_selected_device() {
    let mut app = App::test_app();
    let p = render_detail(&app, area(58, 3, 42, 12));
    assert_eq!(p.title, " detail ");
    assert_eq!(
        texts(&p),
        [
            "Wireless Earbuds",
            "mac         C0:FF:EE:00:AA:01",
            "type        audio-headset",
            "connected   yes",
            "paired      yes",
            "trusted     yes",
            "battery     97%",
            "rssi        -54 dBm",
            "default     yes",
            "",
            "connected in 1.7s",
        ]
    );
    app.on_key(Key::Down);
    app.devices[1].icon = String::new();
    app.devices[1].rssi = None;
    app.devices[1].battery = Some(0);
    app.status = String::new();
    app.connecting = Some("X".to_string());
    let p = render_detail(&app, area(58, 3, 42, 12));
    assert_eq!(
        texts(&p),
        [
            "Wireless Mouse",
            "mac         C0:FF:EE:00:BB:02",
            "connected   no",
            "paired      yes",
            "trusted     no",
            "default     no",
            "",
            "⟳ connecting X (press c/Enter or click Connect to cancel)",
        ]
    );
    assert_eq!(p.lines[2].spans[1].fg, Some(Color::Red));
    assert_eq!(p.lines[4].spans[1].fg, Some(Color::Yellow));
    app.list_state.selected = None;
    let p = render_detail(&app, area(58, 3, 42, 12));
    assert_eq!(texts(&p)[0], "no device selected");
}

#[test]
fn log_shows_the_newest_lines() {
    let app = App::test_app();
    let p = render_log(&app, area(0, 0, 100, 8));
    assert_eq!(p.title, " log ");
    assert_eq!(texts(&p), app.logs);
    let p = render_log(&app, area(0, 0, 100, 4));
    assert_eq!(texts(&p), ["[round 1] adapter power-cycle", "✔ connected in 1.7s"]);
    assert!(render_log(&app, area(0, 0, 100, 1)).lines.is_empty());
}

#[test]
fn bar_shows_the_buttons() {
    let mut app = App::test_app();
    let p = render_buttons(&mut app, area(0, 23, 100, 3));
    assert_eq!(p.title, " actions — click or use keys: c/Enter d p r t s f q ");
    assert_eq!(
        texts(&p),
        ["[ Connect ] [ Disconnect ] [ Pair ] [ Remove ] [ Trust ] [ Scan✓ ] [ ★Default ] [ Quit ] "]
    );
    assert_eq!(text(&p.lines[0]).chars().count(), bar_cells(false, true) as usize);
    assert_eq!((app.buttons[0].x0, app.buttons[0].x1, app.buttons[0].y), (1, 12, 24));
    assert_eq!((app.buttons[7].x0, app.buttons[7].x1), (81, 89));
    assert_eq!(app.buttons[7].action, Action::Quit);
    app.connecting = Some("X".to_string());
    app.scanning = false;
    let p = render_buttons(&mut app, area(0, 23, 100, 3));
    assert!(text(&p.lines[0]).starts_with("[ Cancel ] "));
    assert_eq!(p.lines[0].spans[0].fg, Some(Color::Red));
    assert_eq!(text(&p.lines[0]).chars().count(), bar_cells(true, false) as usize);
}

#[test]
fn every_cell_of_a_button_does_what_its_key_does() {
    let keys = ['c', 'd', 'p', 'r', 't', 's', 'f', 'q'];
    for i in 0..8 {
        let mut app = App::test_app();
        draw(&mut app);
        let b = app.buttons[i];
        for col in b.x0..b.x1 {
            let mut clicked = App::test_app();
            draw(&mut clicked);
            let mut pressed = App::test_app();
            let x = clicked.on_mouse(Mouse::LeftDown, col, b.y);
            let y = pressed.on_key(Key::Char(keys[i]));
            assert_eq!(clicked.status, pressed.status);
            assert_eq!(clicked.connecting, pressed.connecting);
            assert_eq!(clicked.scanning, pressed.scanning);
            assert_eq!(clicked.should_quit, pressed.should_quit);
            assert_eq!(commands(x), commands(y));
        }
    }
}

fn commands(e: Option<Effect>) -> Vec<Vec<String>> {
    match e {
        Some(Effect::Background(v)) => v.into_iter().map(|c| c.argv).collect(),
        Some(Effect::StopScan(c)) => vec![c.argv],
        Some(Effect::SaveDefault(mac)) => vec![vec![mac]],
        Some(Effect::StartEngine(mac)) => vec![vec!["engine".to_string(), mac]],
        Some(_) => vec![Vec::new()],
        None => Vec::new(),
    }
}

#[test]
fn drawn_rows_can_be_clicked() {
    let mut app = App::test_app();
    draw(&mut app);
    app.on_mouse(Mouse::LeftDown, 10, 5);
    assert_eq!(app.selected_mac(), Some("C0:FF:EE:00:BB:02".to_string()));
    app.on_mouse(Mouse::LeftDown, 10, 4);
    assert_eq!(app.selected_mac(), Some("C0:FF:EE:00:AA:01".to_string()));
    app.on_mouse(Mouse::LeftDown, 10, 6);
    assert_eq!(app.selected_mac(), Some("C0:FF:EE:00:AA:01".to_string()));
}

#[test]
fn parts_can_be_placed_anywhere() {
    let mut app = App::test_app();
    let a = Areas {
        header: area(1, 1, 5, 3),
        list: area(2, 2, 6, 4),
        detail: area(3, 3, 7, 5),
        log: area(4, 4, 8, 3),
        buttons: area(5, 5, 9, 6),
    };
    let s = compose(&mut app, a);
    assert_eq!(s.header.area, a.header);
    assert_eq!(s.devices.area, a.list);
    assert_eq!(s.detail.area, a.detail);
    assert_eq!(s.log.area, a.log);
    assert_eq!(s.log.lines.len(), 1);
    assert_eq!(s.buttons.area, a.buttons);
    assert_eq!(app.list_area, a.list);
    assert_eq!((app.buttons[0].x0, app.buttons[0].y), (6, 6));
}

#[test]
fn screens_of_any_ordinary_size_are_drawn() {
    for (w, h) in [(0, 0), (1, 1), (20, 5), (80, 24), (500, 200)] {
        let mut app = App::test_app();
        let s = ui(&mut app, area(0, 0, w, h)).expect("the screen is of ordinary size");
        assert_eq!(s.buttons.area.x, 0);
        assert_eq!(s.buttons.area.width, w);
        assert!(s.buttons.area.y + s.buttons.area.height <= h);
    }
    let mut app = App::test_app();
    assert!(ui(&mut app, area(65500, 0, 10, 24)).is_none());
    assert!(app.buttons.is_empty());
}

#[test]
fn long_names_are_cut() {
    assert_eq!(truncate("abc", 3), "abc");
    assert_eq!(truncate("abcd", 3), "ab…");
    assert_eq!(truncate("éèàù", 2), "é…");
    assert_eq!(truncate("abc", 0), "…");
    assert_eq!(truncate("", 0), "");
    let mut app = App::test_app();
    app.devices[0].name = "x".repeat(40);
    let p = render_device_list(&mut app, area(0, 0, 80, 10));
    assert_eq!(p.lines[0].spans[2].text, format!("{}…", "x".repeat(27)));
}

#[test]
fn charge_is_shown_where_known() {
    let mut d = Device::default();
    assert_eq!(battery_str(&d), "");
    d.battery = Some(0);
    assert_eq!(battery_str(&d), "");
    d.battery = Some(5);
    assert_eq!(battery_str(&d), " 5%");
    d.battery = Some(255);
    assert_eq!(battery_str(&d), " 255%");
}

#[test]
fn cells_become_text() {
    let row = |s: &[&str]| -> Vec<String> { s.iter().map(|c| c.to_string()).collect() };
    assert_eq!(render_test(&vec![row(&["a", "★", ""]), row(&[]), row(&["b"])]), "a★\n\nb\n");
    assert_eq!(render_test(&Vec::new()), "");
}

fn scrolled(rows: usize, selected: Option<usize>, offset: usize, a: Rect) -> (Option<usize>, usize) {
    let mut app = App::test_app();
    app.devices = (0..rows)
        .map(|i| {
            let mut d = Device::default();
            d.mac = i.to_string();
            d.name = format!("two\nlines {i}");
            d
        })
        .collect();
    app.list_state = ListState { selected, offset };
    render_device_list(&mut app, a);
    assert_eq!(app.list_area, a);
    let first = app.list_state;
    render_device_list(&mut app, a);
    assert_eq!(app.list_state, first);
    (first.selected, first.offset)
}

#[test]
fn drawing_brings_the_selected_row_into_view() {
    let a = area(4, 5, 20, 5);
    assert_eq!(scrolled(30, Some(10), 0, a), (Some(10), 8));
    assert_eq!(scrolled(30, Some(10), 9, a), (Some(10), 9));
    assert_eq!(scrolled(30, Some(10), 8, a), (Some(10), 8));
    assert_eq!(scrolled(30, Some(10), 20, a), (Some(10), 10));
    assert_eq!(scrolled(30, Some(0), 29, a), (Some(0), 0));
    assert_eq!(scrolled(30, Some(29), 0, a), (Some(29), 27));
    // The list has become shorter.
    assert_eq!(scrolled(3, Some(10), 8, a), (Some(2), 2));
    assert_eq!(scrolled(3, Some(usize::MAX), usize::MAX, a), (Some(2), 2));
    assert_eq!(scrolled(3, Some(0), 1, a), (Some(0), 0));
    // Nothing is selected.
    assert_eq!(scrolled(30, None, 7, a), (None, 7));
    assert_eq!(scrolled(30, None, 70, a), (None, 29));
    assert_eq!(scrolled(0, Some(4), 7, a), (None, 0));
    // There is no room inside the frame.
    for a in [area(0, 0, 2, 9), area(0, 0, 9, 2), area(0, 0, 0, 0), area(0, 0, 1, 1)] {
        assert_eq!(scrolled(3, Some(9), 8, a), (Some(9), 8));
        assert_eq!(scrolled(0, Some(9), 8, a), (Some(9), 8));
    }
    assert_eq!(scrolled(3, Some(2), 0, area(0, 0, 3, 3)), (Some(2), 2));
    // Where the area lies makes no difference, nor how large it is.
    assert_eq!(scrolled(30, Some(10), 0, area(u16::MAX, u16::MAX, 20, 5)), (Some(10), 8));
    assert_eq!(scrolled(3, Some(2), 9, area(0, 0, u16::MAX, u16::MAX)), (Some(2), 2));
}

#[test]
fn rows_in_view_can_be_clicked() {
    let mut app = App::test_app();
    app.devices = (0..30)
        .map(|i: i32| {
            let mut d = Device::default();
            d.mac = i.to_string();
            d
        })
        .collect();
    app.list_state = ListState { selected: Some(10), offset: 0 };
    app.buttons = Vec::new();
    render_device_list(&mut app, area(0, 3, 20, 5));
    // The last of three rows shows the selected device.
    app.on_mouse(Mouse::LeftDown, 5, 6);
    assert_eq!(app.selected_mac(), Some("10".to_string()));
    app.on_mouse(Mouse::LeftDown, 5, 4);
    assert_eq!(app.selected_mac(), Some("8".to_string()));
    let p = render_detail(&app, area(20, 3, 20, 12));
    assert_eq!(texts(&p)[1], "mac         8");
}

#[test]
fn details_follow_the_list() {
    let mut app = App::test_app();
    app.list_state = ListState { selected: Some(7), offset: 0 };
    let s = draw(&mut app);
    assert_eq!(app.list_state.selected, Some(1));
    assert_eq!(texts(&s.detail)[0], "Wireless Mouse");
}
