//! The whole screen of the interactive manager.

use crate::bt::{Adapter, AdapterView, Device, DeviceView};
use crate::layout::{self, Constraint, Direction, Rect};
use crate::text;
use crate::tui::{self, App, AppView, Button, ListState};
use crate::view::{self, Panel, PanelView};
use vstd::prelude::*;

verus! {

/// Where the parts of the screen are.
#[derive(Clone, Copy, Debug, PartialEq, Eq, Structural)]
pub struct Areas {
    pub header: Rect,
    pub list: Rect,
    pub detail: Rect,
    pub log: Rect,
    pub buttons: Rect,
}

/// The whole screen.
pub struct Screen {
    pub header: Panel,
    pub devices: Panel,
    pub detail: Panel,
    pub log: Panel,
    pub buttons: Panel,
}

/// The whole screen, its texts as sequences of characters.
#[verifier::ext_equal]
pub struct ScreenView {
    pub header: PanelView,
    pub devices: PanelView,
    pub detail: PanelView,
    pub log: PanelView,
    pub buttons: PanelView,
}

impl View for Screen {
    type V = ScreenView;

    open spec fn view(&self) -> ScreenView {
        ScreenView {
            header: self.header@,
            devices: self.devices@,
            detail: self.detail@,
            log: self.log@,
            buttons: self.buttons@,
        }
    }
}

/// What the screen shows. The list is drawn before the details, which tell of the
/// device that is selected then.
pub open spec fn shown(v: AppView, areas: Areas) -> ScreenView {
    ScreenView {
        header: view::header_panel(v, areas.header),
        devices: view::list_panel(v, areas.list),
        detail: view::detail_panel(view::listed(v, areas.list), areas.detail),
        log: view::log_panel(v, areas.log),
        buttons: view::button_panel(v, areas.buttons),
    }
}

/// The manager once the screen has been drawn: it knows where the list and the
/// buttons are, and which rows are in view.
pub open spec fn laid_out(v: AppView, areas: Areas) -> AppView {
    AppView {
        buttons: view::placed_all(areas.buttons, v.connecting is Some, v.scanning),
        ..view::listed(v, areas.list)
    }
}

/// Whether the cells of all buttons can be counted.
pub open spec fn fits(v: AppView, areas: Areas) -> bool {
    view::bar_fits(areas.buttons, v.connecting is Some, v.scanning)
}

/// Draws the screen with its parts in the given places.
pub fn compose(app: &mut App, areas: Areas) -> (r: Screen)
    requires
        fits(old(app)@, areas),
    ensures
        final(app)@ == laid_out(old(app)@, areas),
        r@ == shown(old(app)@, areas),
{
    let header: Panel = view::render_header(app, areas.header);
    let devices: Panel = view::render_device_list(app, areas.list);
    let detail: Panel = view::render_detail(app, areas.detail);
    let log: Panel = view::render_log(app, areas.log);
    let buttons: Panel = view::render_buttons(app, areas.buttons);
    Screen { header, devices, detail, log, buttons }
}

/// The heights of the header, the body, the log and the buttons.
pub open spec fn heights() -> Seq<Constraint> {
    seq![
        Constraint::Length(3),
        Constraint::Min(3),
        Constraint::Length(8),
        Constraint::Length(3),
    ]
}

/// The widths of the list and the details.
pub open spec fn widths() -> Seq<Constraint> {
    seq![Constraint::Percentage(58), Constraint::Percentage(42)]
}

/// Whether the parts of the screen come from dividing it into `rows`, and the
/// second of these into `columns`.
pub open spec fn divided(area: Rect, areas: Areas, rows: Seq<Rect>, columns: Seq<Rect>) -> bool {
    &&& layout::can_split(Direction::Vertical, heights(), area, rows)
    &&& layout::can_split(Direction::Horizontal, widths(), rows[1], columns)
    &&& rows.len() == 4 && columns.len() == 2
    &&& forall|i: int|
        0 <= i < 4 ==> layout::is_part(Direction::Vertical, area, #[trigger] rows[i])
    &&& forall|i: int|
        0 <= i < 2 ==> layout::is_part(Direction::Horizontal, rows[1], #[trigger] columns[i])
    &&& areas == Areas {
        header: rows[0],
        list: columns[0],
        detail: columns[1],
        log: rows[2],
        buttons: rows[3],
    }
}

/// Whether the parts of the screen divide it: the header, the body, the log and
/// the buttons one below the other, and in the body the list and the details
/// side by side.
pub open spec fn divides(area: Rect, areas: Areas) -> bool {
    exists|rows: Seq<Rect>, columns: Seq<Rect>| #[trigger] divided(area, areas, rows, columns)
}

/// Where the parts of a screen are.
fn arrange(area: Rect) -> (r: Areas)
    ensures
        divides(area, r),
        r.buttons.x == area.x,
        r.buttons.y <= area.y + area.height,
{
    let down: Vec<Constraint> = vec![
        Constraint::Length(3),
        Constraint::Min(3),
        Constraint::Length(8),
        Constraint::Length(3),
    ];
    let rows: Vec<Rect> = layout::split(Direction::Vertical, &down, area);
    let across: Vec<Constraint> = vec![Constraint::Percentage(58), Constraint::Percentage(42)];
    let columns: Vec<Rect> = layout::split(Direction::Horizontal, &across, rows[1]);
    let r = Areas {
        header: rows[0],
        list: columns[0],
        detail: columns[1],
        log: rows[2],
        buttons: rows[3],
    };
    proof {
        assert(down@ == heights());
        assert(across@ == widths());
        assert(divided(area, r, rows@, columns@));
        assert(layout::is_part(Direction::Vertical, area, rows@[3]));
    }
    r
}

/// Draws the screen. Where the cells of its buttons are too many to be counted,
/// nothing is drawn; on a screen of ordinary size they never are.
pub fn ui(app: &mut App, area: Rect) -> (r: Option<Screen>)
    ensures
        exists|areas: Areas| #[trigger]
            divides(area, areas) && if fits(old(app)@, areas) {
                &&& r is Some
                &&& r->0@ == shown(old(app)@, areas)
                &&& final(app)@ == laid_out(old(app)@, areas)
            } else {
                &&& r is None
                &&& final(app)@ == old(app)@
            },
        area.x + 1 + view::bar_width(8, old(app)@.connecting is Some, old(app)@.scanning)
            <= u16::MAX && area.y + area.height < u16::MAX ==> r is Some,
{
    let areas: Areas = arrange(area);
    if bar_can_be_counted(app, areas.buttons) {
        Some(compose(app, areas))
    } else {
        None
    }
}

/// Whether the cells of all buttons can be counted.
fn bar_can_be_counted(app: &App, area: Rect) -> (r: bool)
    ensures
        r == view::bar_fits(area, app@.connecting is Some, app@.scanning),
{
    let width: u32 = view::bar_cells(app.connecting.is_some(), app.scanning);
    area.y < u16::MAX && area.x as u32 + 1 + width <= 65535
}

// ---- a screen to look at without a terminal ---------------------------------
/// The devices of the sample.
pub open spec fn sample_devices() -> Seq<DeviceView> {
    seq![
        DeviceView {
            mac: "C0:FF:EE:00:AA:01"@,
            name: "Wireless Earbuds"@,
            paired: true,
            bonded: true,
            connected: true,
            trusted: true,
            battery: Some(97),
            rssi: Some(-54i32),
            icon: "audio-headset"@,
        },
        DeviceView {
            mac: "C0:FF:EE:00:BB:02"@,
            name: "Wireless Mouse"@,
            paired: true,
            bonded: false,
            connected: false,
            trusted: false,
            battery: None,
            rssi: Some(-71i32),
            icon: "input-mouse"@,
        },
    ]
}

/// The sample.
pub open spec fn sample() -> AppView {
    AppView {
        devices: sample_devices(),
        adapter: AdapterView {
            mac: "DE:AD:BE:EF:00:00"@,
            name: "hci0"@,
            powered: true,
            discoverable: false,
            pairable: true,
            discovering: false,
        },
        list_state: ListState { selected: Some(0), offset: 0 },
        default_mac: Some("C0:FF:EE:00:AA:01"@),
        scanning: true,
        logs: seq![
            "▶ aggressive connect → C0:FF:EE:00:AA:01"@,
            "[round 1] adapter power-cycle"@,
            "✔ connected in 1.7s"@,
        ],
        status: "connected in 1.7s"@,
        should_quit: false,
        connecting: None,
        list_area: layout::nowhere(),
        buttons: seq![],
    }
}

impl App {
    /// A manager with two devices, as it is after a connection.
    pub fn test_app() -> (r: App)
        ensures
            r@ == sample(),
    {
        let devices: Vec<Device> = vec![
            Device {
                mac: "C0:FF:EE:00:AA:01".to_owned(),
                name: "Wireless Earbuds".to_owned(),
                paired: true,
                bonded: true,
                connected: true,
                trusted: true,
                battery: Some(97),
                rssi: Some(-54),
                icon: "audio-headset".to_owned(),
            },
            Device {
                mac: "C0:FF:EE:00:BB:02".to_owned(),
                name: "Wireless Mouse".to_owned(),
                paired: true,
                bonded: false,
                connected: false,
                trusted: false,
                battery: None,
                rssi: Some(-71),
                icon: "input-mouse".to_owned(),
            },
        ];
        let adapter = Adapter {
            mac: "DE:AD:BE:EF:00:00".to_owned(),
            name: "hci0".to_owned(),
            powered: true,
            discoverable: false,
            pairable: true,
            discovering: false,
        };
        let logs: Vec<String> = vec![
            "▶ aggressive connect → C0:FF:EE:00:AA:01".to_owned(),
            "[round 1] adapter power-cycle".to_owned(),
            "✔ connected in 1.7s".to_owned(),
        ];
        let r = App {
            devices,
            adapter,
            list_state: ListState { selected: Some(0), offset: 0 },
            default_mac: Some("C0:FF:EE:00:AA:01".to_owned()),
            scanning: true,
            logs,
            status: "connected in 1.7s".to_owned(),
            should_quit: false,
            connecting: None,
            list_area: Rect::default(),
            buttons: Vec::new(),
        };
        proof {
            assert(r@.devices == sample_devices());
            assert(r@.logs == sample().logs);
            assert(r@.buttons == Seq::<Button>::empty());
        }
        r
    }
}

/// The cells of a row, one behind the other.
pub open spec fn row_text(cells: Seq<Seq<char>>) -> Seq<char>
    decreases cells.len(),
{
    if cells.len() == 0 {
        seq![]
    } else {
        row_text(cells.drop_last()) + cells.last()
    }
}

/// The rows of a grid of cells, each closed by a line end.
pub open spec fn grid_text(rows: Seq<Vec<String>>) -> Seq<char>
    decreases rows.len(),
{
    if rows.len() == 0 {
        seq![]
    } else {
        grid_text(rows.drop_last()) + row_text(text::texts(rows.last()@)) + "\n"@
    }
}

/// Appends the cells of a row.
fn append_row(out: &mut String, cells: &Vec<String>)
    ensures
        final(out)@ == old(out)@ + row_text(text::texts(cells@)),
{
    let ghost first = out@;
    let ghost all = text::texts(cells@);
    let mut i: usize = 0;
    assert(first + row_text(all.take(0)) == first);
    while i < cells.len()
        invariant
            i <= cells@.len(),
            all == text::texts(cells@),
            out@ == first + row_text(all.take(i as int)),
        decreases cells@.len() - i,
    {
        proof {
            assert(all.take(i + 1).drop_last() == all.take(i as int));
            assert(all.take(i + 1).last() == cells@[i as int]@);
            assert(first + row_text(all.take(i as int)) + cells@[i as int]@ == first + row_text(
                all.take(i + 1),
            ));
        }
        out.append(cells[i].as_str());
        i += 1;
    }
    assert(all.take(all.len() as int) == all);
}

/// A frame as plain text, given what was drawn into its cells.
pub fn render_test(rows: &Vec<Vec<String>>) -> (r: String)
    ensures
        r@ == grid_text(rows@),
{
    let mut r: String = String::new();
    let mut i: usize = 0;
    assert(rows@.take(0).len() == 0);
    while i < rows.len()
        invariant
            i <= rows@.len(),
            r@ == grid_text(rows@.take(i as int)),
        decreases rows@.len() - i,
    {
        proof {
            assert(rows@.take(i + 1).drop_last() == rows@.take(i as int));
            assert(rows@.take(i + 1).last() == rows@[i as int]);
        }
        append_row(&mut r, &rows[i]);
        r.append("\n");
        i += 1;
    }
    assert(rows@.take(rows@.len() as int) == rows@);
    r
}

// ---- what the screen is for -------------------------------------------------
/// What is said of a screen is said of what it holds.
pub proof fn law_screen_view(s: Screen)
    ensures
        s@.header == s.header@,
        s@.devices == s.devices@,
        s@.detail == s.detail@,
        s@.log == s.log@,
        s@.buttons == s.buttons@,
{
}

/// Every part of the screen shows its own panel in its own place, and drawing it
/// changes nothing but where the list and the buttons are and which rows are in
/// view.
pub proof fn law_parts_of_the_screen(v: AppView, areas: Areas)
    ensures
        shown(v, areas).header == view::header_panel(v, areas.header),
        shown(v, areas).devices == view::list_panel(v, areas.list),
        shown(v, areas).detail == view::detail_panel(view::listed(v, areas.list), areas.detail),
        tui::selected(view::listed(v, areas.list)) == tui::selected(v) ==> shown(v, areas).detail
            == view::detail_panel(v, areas.detail),
        shown(v, areas).log == view::log_panel(v, areas.log),
        shown(v, areas).buttons == view::button_panel(v, areas.buttons),
        ({
            let w = laid_out(v, areas);
            &&& w == (AppView {
                list_area: areas.list,
                list_state: w.list_state,
                buttons: w.buttons,
                ..v
            })
            &&& w.list_state == view::scrolled(v.devices.len(), v.list_state, areas.list)
            &&& w.buttons == view::placed_all(areas.buttons, v.connecting is Some, v.scanning)
        }),
        fits(v, areas) <==> view::bar_fits(areas.buttons, v.connecting is Some, v.scanning),
{
    let w = view::listed(v, areas.list);
    if tui::selected(w) == tui::selected(v) {
        assert(view::detail_lines(w) == view::detail_lines(v));
    }
}

/// The screen is divided into a header of three rows, a body, a log of eight rows
/// and a bar of three, and the body into the list and the details at 58 to 42.
pub proof fn law_division(area: Rect, areas: Areas, rows: Seq<Rect>, columns: Seq<Rect>)
    requires
        divided(area, areas, rows, columns),
    ensures
        divides(area, areas),
        layout::can_split(
            Direction::Vertical,
            seq![
                Constraint::Length(3),
                Constraint::Min(3),
                Constraint::Length(8),
                Constraint::Length(3),
            ],
            area,
            rows,
        ),
        layout::can_split(
            Direction::Horizontal,
            seq![Constraint::Percentage(58), Constraint::Percentage(42)],
            rows[1],
            columns,
        ),
        areas.header == rows[0],
        areas.list == columns[0],
        areas.detail == columns[1],
        areas.log == rows[2],
        areas.buttons == rows[3],
{
}

/// A screen that is divided is divided in this way.
pub proof fn law_divided_screen(area: Rect, areas: Areas)
    requires
        divides(area, areas),
    ensures
        exists|rows: Seq<Rect>, columns: Seq<Rect>| #[trigger] divided(area, areas, rows, columns),
{
}

/// The text of a frame is its rows from top to bottom, each the cells from left to
/// right and a line end.
pub proof fn law_frame_text(
    cells: Seq<Seq<char>>,
    more: Seq<Seq<char>>,
    rows: Seq<Vec<String>>,
    others: Seq<Vec<String>>,
)
    ensures
        row_text(cells + more) == row_text(cells) + row_text(more),
        forall|c: Seq<char>| #[trigger] row_text(seq![c]) == c,
        grid_text(rows + others) == grid_text(rows) + grid_text(others),
        forall|r: Vec<String>| #[trigger]
            grid_text(seq![r]) == row_text(text::texts(r@)) + seq!['\n'],
    decreases more.len() + others.len(),
{
    reveal_strlit("\n");
    assert("\n"@ == seq!['\n']);
    assert forall|c: Seq<char>| #[trigger] row_text(seq![c]) == c by {
        assert(seq![c].drop_last() == Seq::<Seq<char>>::empty());
        assert(row_text(Seq::<Seq<char>>::empty()) == Seq::<char>::empty());
        assert(Seq::<char>::empty() + c == c);
    }
    assert forall|r: Vec<String>| #[trigger]
        grid_text(seq![r]) == row_text(text::texts(r@)) + seq!['\n'] by {
        assert(seq![r].drop_last() == Seq::<Vec<String>>::empty());
        assert(grid_text(Seq::<Vec<String>>::empty()) == Seq::<char>::empty());
        assert(Seq::<char>::empty() + row_text(text::texts(r@)) == row_text(text::texts(r@)));
    }
    if more.len() > 0 {
        law_frame_text(cells, more.drop_last(), rows, others);
        assert((cells + more).drop_last() == cells + more.drop_last());
        assert((cells + more).last() == more.last());
        assert(row_text(cells + more) == row_text(cells) + row_text(more));
    } else {
        assert(cells + more == cells);
        assert(row_text(cells) + row_text(more) == row_text(cells));
    }
    if others.len() > 0 {
        law_frame_text(cells, more, rows, others.drop_last());
        assert((rows + others).drop_last() == rows + others.drop_last());
        assert((rows + others).last() == others.last());
        assert(grid_text(rows + others) == grid_text(rows) + grid_text(others));
    } else {
        assert(rows + others == rows);
        assert(grid_text(rows) + grid_text(others) == grid_text(rows));
    }
}

/// The sample is a manager as it can be: its first device is connected, selected
/// and the default, and it is scanning.
pub proof fn law_sample()
    ensures
        sample().devices.len() == 2,
        sample().list_state.selected == Some(0usize),
        sample().default_mac == Some(sample().devices[0].mac),
        sample().devices[0].connected && sample().devices[0].paired && sample().devices[0].bonded
            && sample().devices[0].trusted,
        sample().devices[1].paired && !sample().devices[1].bonded && !sample().devices[1].connected
            && !sample().devices[1].trusted,
        sample().scanning && sample().connecting is None && !sample().should_quit,
        sample().adapter.powered && sample().adapter.pairable && !sample().adapter.discoverable
            && !sample().adapter.discovering,
        sample().buttons.len() == 0,
{
}

} // verus!
