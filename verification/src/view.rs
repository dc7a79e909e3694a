//! What the interactive manager shows.

use crate::bt::{Adapter, Device, DeviceView};
use crate::layout::Rect;
use crate::tui::{self, Action, App, AppView, Button, ListState};
use crate::{bt, number, sysfs, text};
use vstd::prelude::*;

verus! {

/// A colour of the terminal.
#[derive(Clone, Copy, Debug, PartialEq, Eq, Structural)]
pub enum Color {
    Red,
    Green,
    Yellow,
    Blue,
    Cyan,
    DarkGray,
    White,
}

/// A piece of text in one style.
pub struct Span {
    pub text: String,
    /// Its colour, where it is not the terminal's own.
    pub fg: Option<Color>,
    pub bold: bool,
}

/// A piece of text in one style, its text as a sequence of characters.
pub struct SpanView {
    pub text: Seq<char>,
    pub fg: Option<Color>,
    pub bold: bool,
}

impl View for Span {
    type V = SpanView;

    open spec fn view(&self) -> SpanView {
        SpanView { text: self.text@, fg: self.fg, bold: self.bold }
    }
}

/// The views of a vector of spans.
pub open spec fn span_views(v: Seq<Span>) -> Seq<SpanView> {
    Seq::new(v.len(), |i: int| v[i]@)
}

/// A line of text.
pub struct Line {
    pub spans: Vec<Span>,
}

impl View for Line {
    type V = Seq<SpanView>;

    open spec fn view(&self) -> Seq<SpanView> {
        span_views(self.spans@)
    }
}

/// The views of a vector of lines.
pub open spec fn line_views(v: Seq<Line>) -> Seq<Seq<SpanView>> {
    Seq::new(v.len(), |i: int| v[i]@)
}

/// Text in the terminal's own style.
pub open spec fn raw(t: Seq<char>) -> SpanView {
    SpanView { text: t, fg: None, bold: false }
}

/// Text in a colour.
pub open spec fn colored(t: Seq<char>, c: Color) -> SpanView {
    SpanView { text: t, fg: Some(c), bold: false }
}

/// Bold text.
pub open spec fn bold(t: Seq<char>) -> SpanView {
    SpanView { text: t, fg: None, bold: true }
}

/// Text in the terminal's own style.
fn plain(t: &str) -> (r: Span)
    ensures
        r@ == raw(t@),
{
    Span { text: t.to_owned(), fg: None, bold: false }
}

/// Text in a colour.
fn tinted(t: &str, c: Color) -> (r: Span)
    ensures
        r@ == colored(t@, c),
{
    Span { text: t.to_owned(), fg: Some(c), bold: false }
}

/// Bold text.
fn strong(t: &str) -> (r: Span)
    ensures
        r@ == bold(t@),
{
    Span { text: t.to_owned(), fg: None, bold: true }
}

/// A framed part of the screen.
pub struct Panel {
    pub area: Rect,
    pub title: String,
    pub lines: Vec<Line>,
    /// Whether lines that are too long go on in the next row.
    pub wrap: bool,
}

/// A framed part of the screen, its texts as sequences of characters.
#[verifier::ext_equal]
pub struct PanelView {
    pub area: Rect,
    pub title: Seq<char>,
    pub lines: Seq<Seq<SpanView>>,
    pub wrap: bool,
}

impl View for Panel {
    type V = PanelView;

    open spec fn view(&self) -> PanelView {
        PanelView {
            area: self.area,
            title: self.title@,
            lines: line_views(self.lines@),
            wrap: self.wrap,
        }
    }
}

// ---- text -------------------------------------------------------------------
/// A text that fits into `max` characters, cut with an ellipsis where it is too
/// long.
pub open spec fn shortened(s: Seq<char>, max: int) -> Seq<char> {
    if s.len() <= max {
        s
    } else {
        s.take(if max > 0 {
            max - 1
        } else {
            0
        }) + "…"@
    }
}

/// Cuts a text that is longer than `max` characters.
pub fn truncate(s: &str, max: usize) -> (r: String)
    ensures
        r@ == shortened(s@, max as int),
{
    if s.unicode_len() <= max {
        s.to_owned()
    } else {
        let k: usize = if max > 0 {
            max - 1
        } else {
            0
        };
        assert(s@.subrange(0, k as int) == s@.take(k as int));
        s.substring_char(0, k).to_owned().concat("…")
    }
}

/// A shortened text fits, and is the text itself where that fits.
pub proof fn law_shortened_fits(s: Seq<char>, max: int)
    requires
        max > 0,
    ensures
        shortened(s, max).len() <= max,
        s.len() <= max ==> shortened(s, max) == s,
        s.len() > max ==> shortened(s, max).len() == max && shortened(s, max).take(max - 1)
            == s.take(max - 1),
{
    reveal_strlit("…");
    if s.len() > max {
        assert(shortened(s, max).take(max - 1) == s.take(max - 1));
    }
}

/// So many spaces.
pub open spec fn spaces(n: int) -> Seq<char> {
    Seq::new(
        if n > 0 {
            n as nat
        } else {
            0
        },
        |i: int| ' ',
    )
}

/// A text, filled up with spaces to `width` characters.
pub open spec fn padded(s: Seq<char>, width: int) -> Seq<char> {
    s + spaces(width - s.len())
}

/// Fills a text up with spaces to `width` characters.
fn pad(s: String, width: usize) -> (r: String)
    ensures
        r@ == padded(s@, width as int),
{
    let ghost first = s@;
    let n: usize = s.as_str().unicode_len();
    let mut r: String = s;
    let mut k: usize = n;
    assert(first + spaces(0) == first);
    while k < width
        invariant
            n == first.len(),
            n <= k,
            k <= width || k == n,
            r@ == first + spaces(k - n),
        decreases width - k,
    {
        proof {
            reveal_strlit(" ");
            assert(spaces(k - n) + " "@ == spaces(k + 1 - n));
            assert(first + spaces(k - n) + " "@ == first + (spaces(k - n) + " "@));
        }
        r.append(" ");
        k += 1;
    }
    assert(width < n ==> spaces(width - n) == spaces(0));
    r
}

/// The charge of a device, where it is known.
pub open spec fn charge(d: DeviceView) -> Seq<char> {
    match d.battery {
        Some(b) => if b > 0 {
            " "@ + number::decimal(b as nat) + "%"@
        } else {
            seq![]
        },
        None => seq![],
    }
}

/// The charge of a device, where it is known.
pub fn battery_str(d: &Device) -> (r: String)
    ensures
        r@ == charge(d@),
{
    match d.battery {
        Some(b) => if b > 0 {
            " ".to_owned().concat(number::natural(b as u64).as_str()).concat("%")
        } else {
            String::new()
        },
        None => String::new(),
    }
}

/// Whether `mac` is the address of the default device.
fn is_default(default_mac: &Option<String>, mac: &str) -> (r: bool)
    ensures
        r == (sysfs::opt_string(*default_mac) == Some(mac@)),
{
    match default_mac {
        Some(d) => text::same(d.as_str(), mac),
        None => false,
    }
}

// ---- the header -------------------------------------------------------------
/// The line that tells of the adapter.
pub open spec fn header_line(v: AppView) -> Seq<SpanView> {
    let a = v.adapter;
    let scans = v.scanning || a.discovering;
    seq![
        colored(" ⬢ "@, Color::Cyan),
        bold(
            (if a.name.len() == 0 {
                "adapter"@
            } else {
                a.name
            }) + " "@,
        ),
        colored("["@ + a.mac + "]  "@, Color::DarkGray),
        raw("power:"@),
        if a.powered {
            colored("on "@, Color::Green)
        } else {
            colored("off "@, Color::DarkGray)
        },
        raw(" "@),
        if scans {
            colored("SCANNING "@, Color::Yellow)
        } else {
            colored("idle "@, Color::DarkGray)
        },
        raw(" default:"@),
        colored(
            match v.default_mac {
                Some(mac) => mac,
                None => "none"@,
            },
            Color::Yellow,
        ),
    ]
}

/// The header: the state of the adapter.
pub open spec fn header_panel(v: AppView, area: Rect) -> PanelView {
    PanelView { area, title: " btkick "@, lines: seq![header_line(v)], wrap: false }
}

/// The header: the state of the adapter.
pub fn render_header(app: &App, area: Rect) -> (p: Panel)
    ensures
        p@ == header_panel(app@, area),
{
    let a: &Adapter = &app.adapter;
    let name: &str = if a.name.as_str().is_empty() {
        "adapter"
    } else {
        a.name.as_str()
    };
    let scans: bool = app.scanning || a.discovering;
    let default_mac: &str = match &app.default_mac {
        Some(mac) => mac.as_str(),
        None => "none",
    };
    let spans: Vec<Span> = vec![
        tinted(" ⬢ ", Color::Cyan),
        strong(name.to_owned().concat(" ").as_str()),
        tinted("[".to_owned().concat(a.mac.as_str()).concat("]  ").as_str(), Color::DarkGray),
        plain("power:"),
        if a.powered {
            tinted("on ", Color::Green)
        } else {
            tinted("off ", Color::DarkGray)
        },
        plain(" "),
        if scans {
            tinted("SCANNING ", Color::Yellow)
        } else {
            tinted("idle ", Color::DarkGray)
        },
        plain(" default:"),
        tinted(default_mac, Color::Yellow),
    ];
    let line = Line { spans };
    assert(line@ == header_line(app@));
    let lines: Vec<Line> = vec![line];
    assert(line_views(lines@) == seq![header_line(app@)]);
    Panel { area, title: " btkick ".to_owned(), lines, wrap: false }
}

// ---- the list of devices ----------------------------------------------------
/// What stands before the selected row.
pub const HIGHLIGHT: &'static str = "▏";

/// The background of the selected row, by its number among the terminal's
/// colours.
pub const HIGHLIGHT_COLOR: u8 = 238;

/// The row of a device.
pub open spec fn device_row(d: DeviceView, default_mac: Option<Seq<char>>) -> Seq<SpanView> {
    seq![
        if d.connected {
            colored(" ● "@, Color::Green)
        } else {
            colored(" ○ "@, Color::DarkGray)
        },
        colored(
            if default_mac == Some(d.mac) {
                "★ "@
            } else {
                "  "@
            },
            Color::Yellow,
        ),
        SpanView { text: padded(shortened(d.name, 28), 28), fg: None, bold: d.connected },
        colored(
            (if d.paired {
                "paired "@
            } else {
                seq![]
            }) + (if d.trusted {
                "trusted "@
            } else {
                seq![]
            }),
            Color::Blue,
        ),
        colored(charge(d), Color::Green),
    ] + (match d.rssi {
        Some(r) => seq![
            colored(" "@ + number::signed(r as int) + "dBm"@, Color::DarkGray),
        ],
        None => seq![],
    })
}

/// The row of a device.
fn row(d: &Device, default_mac: &Option<String>) -> (l: Line)
    ensures
        l@ == device_row(d@, sysfs::opt_string(*default_mac)),
{
    let star: &str = if is_default(default_mac, d.mac.as_str()) {
        "★ "
    } else {
        "  "
    };
    let name: String = pad(truncate(d.name.as_str(), 28), 28);
    let mut tags: String = String::new();
    if d.paired {
        tags.append("paired ");
    }
    if d.trusted {
        tags.append("trusted ");
    }
    assert(tags@ == (if d.paired {
        "paired "@
    } else {
        seq![]
    }) + (if d.trusted {
        "trusted "@
    } else {
        seq![]
    }));
    let mut spans: Vec<Span> = vec![
        if d.connected {
            tinted(" ● ", Color::Green)
        } else {
            tinted(" ○ ", Color::DarkGray)
        },
        tinted(star, Color::Yellow),
        Span { text: name, fg: None, bold: d.connected },
        tinted(tags.as_str(), Color::Blue),
        tinted(battery_str(d).as_str(), Color::Green),
    ];
    if let Some(r) = d.rssi {
        let t: String = " ".to_owned().concat(number::integer(r).as_str()).concat("dBm");
        spans.push(tinted(t.as_str(), Color::DarkGray));
    }
    let l = Line { spans };
    assert(l@ == device_row(d@, sysfs::opt_string(*default_mac)));
    l
}

/// The rows of all devices.
pub open spec fn device_rows(v: AppView) -> Seq<Seq<SpanView>> {
    Seq::new(v.devices.len(), |i: int| device_row(v.devices[i], v.default_mac))
}

/// The list of devices.
pub open spec fn list_panel(v: AppView, area: Rect) -> PanelView {
    PanelView {
        area,
        title: " devices ("@ + number::decimal(v.devices.len()) + ") "@,
        lines: device_rows(v),
        wrap: false,
    }
}

/// Where a framed list of so many rows stands once it has been drawn into an
/// area. The selection is on a row that the list has, and the first row that is
/// shown changes no more than it must for the selected one to be in view. Where
/// the frame leaves no room, nothing changes.
pub open spec fn scrolled(rows: nat, l: ListState, area: Rect) -> ListState {
    if area.width <= 2 || area.height <= 2 {
        l
    } else if rows == 0 {
        tui::select(l, None)
    } else {
        let last = rows - 1;
        let room = area.height - 2;
        let first = if l.offset > last {
            last
        } else {
            l.offset as int
        };
        match l.selected {
            None => ListState { selected: None, offset: first as usize },
            Some(i) => {
                let s = if i > last {
                    last
                } else {
                    i as int
                };
                ListState {
                    selected: Some(s as usize),
                    offset: (if s < first {
                        s
                    } else if s >= first + room {
                        s - room + 1
                    } else {
                        first
                    }) as usize,
                }
            },
        }
    }
}

/// The `StatefulWidget::render` of `ratatui::widgets::List`, for a list with a
/// border and one row of one line for each device, and what it makes of the
/// state of the list. The contract says which selection and which first row come
/// out. They depend on the number of rows, on the state and on the size of the
/// area, not on where it lies nor on the cells that it is drawn into; so the area
/// is moved to the origin, and no cells are kept.
#[verifier::external_body]
fn scroll(devices: &Vec<Device>, state: ListState, area: Rect) -> (r: ListState)
    ensures
        r == scrolled(devices@.len(), state, area),
{
    let rows = devices.iter().map(|d| ratatui::text::Line::raw(d.name.as_str()));
    let list = ratatui::widgets::List::new(rows).block(ratatui::widgets::Block::bordered());
    let (width, height) = (area.width, area.height);
    let area = ratatui::layout::Rect { x: 0, y: 0, width, height };
    let mut cells = ratatui::buffer::Buffer::empty(ratatui::layout::Rect::ZERO);
    let mut shown = ratatui::widgets::ListState::default();
    shown = shown.with_offset(state.offset).with_selected(state.selected);
    ratatui::widgets::StatefulWidget::render(list, area, &mut cells, &mut shown);
    ListState { selected: shown.selected(), offset: shown.offset() }
}

/// The manager once its list has been drawn into an area.
pub open spec fn listed(v: AppView, area: Rect) -> AppView {
    AppView {
        list_area: area,
        list_state: scrolled(v.devices.len(), v.list_state, area),
        ..v
    }
}

/// The list of devices. Where it is drawn is where clicks on it are looked for,
/// and drawing it brings the selected row into view.
pub fn render_device_list(app: &mut App, area: Rect) -> (p: Panel)
    ensures
        final(app)@ == listed(old(app)@, area),
        p@ == list_panel(old(app)@, area),
{
    app.list_area = area;
    app.list_state = scroll(&app.devices, app.list_state, area);
    let ghost v = old(app)@;
    let n: usize = app.devices.len();
    let mut lines: Vec<Line> = Vec::new();
    let mut i: usize = 0;
    while i < n
        invariant
            i <= n,
            n == app.devices@.len(),
            lines@.len() == i,
            v.devices == bt::device_views(app.devices@),
            v.default_mac == sysfs::opt_string(app.default_mac),
            forall|j: int| 0 <= j < i ==> #[trigger] lines@[j]@ == device_rows(v)[j],
        decreases n - i,
    {
        lines.push(row(&app.devices[i], &app.default_mac));
        i += 1;
    }
    assert(line_views(lines@) == device_rows(v));
    let title: String = " devices (".to_owned().concat(
        number::natural(n as u64).as_str(),
    ).concat(") ");
    Panel { area, title, lines, wrap: false }
}

// ---- the details of a device ------------------------------------------------
/// A line of the details: what, and how it is.
pub open spec fn fact(what: Seq<char>, how: Seq<char>, c: Color) -> Seq<SpanView> {
    seq![colored(padded(what, 12), Color::DarkGray), colored(how, c)]
}

/// A line of the details.
fn fact_line(what: &str, how: &str, c: Color) -> (l: Line)
    ensures
        l@ == fact(what@, how@, c),
{
    let spans: Vec<Span> = vec![
        tinted(pad(what.to_owned(), 12).as_str(), Color::DarkGray),
        tinted(how, c),
    ];
    let l = Line { spans };
    assert(l@ == fact(what@, how@, c));
    l
}

/// A line in one style.
fn one(s: Span) -> (l: Line)
    ensures
        l@ == seq![s@],
{
    let spans: Vec<Span> = vec![s];
    let l = Line { spans };
    assert(l@ == seq![s@]);
    l
}

/// Yes or no.
pub open spec fn yes_no(b: bool) -> Seq<char> {
    if b {
        "yes"@
    } else {
        "no"@
    }
}

/// Yes or no.
fn yn(b: bool) -> (r: &'static str)
    ensures
        r@ == yes_no(b),
{
    if b {
        "yes"
    } else {
        "no"
    }
}

/// One of two colours.
pub open spec fn either(b: bool, yes: Color, no: Color) -> Color {
    if b {
        yes
    } else {
        no
    }
}

/// One of two colours.
fn pick(b: bool, yes: Color, no: Color) -> (c: Color)
    ensures
        c == either(b, yes, no),
{
    if b {
        yes
    } else {
        no
    }
}

/// The lines about one device.
pub open spec fn device_facts(
    d: DeviceView,
    default_mac: Option<Seq<char>>,
) -> Seq<Seq<SpanView>> {
    let is_default = default_mac == Some(d.mac);
    seq![seq![bold(d.name)], fact("mac"@, d.mac, Color::White)] + (if d.icon.len() > 0 {
        seq![fact("type"@, d.icon, Color::White)]
    } else {
        seq![]
    }) + seq![
        fact("connected"@, yes_no(d.connected), either(d.connected, Color::Green, Color::Red)),
        fact("paired"@, yes_no(d.paired), Color::White),
        fact("trusted"@, yes_no(d.trusted), either(d.trusted, Color::Green, Color::Yellow)),
    ] + (match d.battery {
        Some(b) => if b > 0 {
            seq![fact("battery"@, number::decimal(b as nat) + "%"@, Color::Green)]
        } else {
            seq![]
        },
        None => seq![],
    }) + (match d.rssi {
        Some(r) => seq![fact("rssi"@, number::signed(r as int) + " dBm"@, Color::White)],
        None => seq![],
    }) + seq![
        fact(
            "default"@,
            yes_no(is_default),
            either(is_default, Color::Yellow, Color::DarkGray),
        ),
    ]
}

/// The lines about one device.
fn facts(d: &Device, default_mac: &Option<String>) -> (lines: Vec<Line>)
    ensures
        line_views(lines@) == device_facts(d@, sysfs::opt_string(*default_mac)),
{
    let ghost dv = d@;
    let mut lines: Vec<Line> = vec![
        one(strong(d.name.as_str())),
        fact_line("mac", d.mac.as_str(), Color::White),
    ];
    if !d.icon.as_str().is_empty() {
        lines.push(fact_line("type", d.icon.as_str(), Color::White));
    }
    lines.push(
        fact_line("connected", yn(d.connected), pick(d.connected, Color::Green, Color::Red)),
    );
    lines.push(fact_line("paired", yn(d.paired), Color::White));
    lines.push(
        fact_line("trusted", yn(d.trusted), pick(d.trusted, Color::Green, Color::Yellow)),
    );
    if let Some(b) = d.battery {
        if b > 0 {
            let t: String = number::natural(b as u64).concat("%");
            lines.push(fact_line("battery", t.as_str(), Color::Green));
        }
    }
    if let Some(r) = d.rssi {
        let t: String = number::integer(r).concat(" dBm");
        lines.push(fact_line("rssi", t.as_str(), Color::White));
    }
    let chosen: bool = is_default(default_mac, d.mac.as_str());
    lines.push(fact_line("default", yn(chosen), pick(chosen, Color::Yellow, Color::DarkGray)));
    assert(line_views(lines@) == device_facts(dv, sysfs::opt_string(*default_mac)));
    lines
}

/// The lines of the details: the selected device, and what is going on.
pub open spec fn detail_lines(v: AppView) -> Seq<Seq<SpanView>> {
    (match tui::selected(v) {
        Some(d) => device_facts(d, v.default_mac),
        None => seq![seq![raw("no device selected"@)]],
    }) + seq![seq![raw(seq![])]] + (match v.connecting {
        Some(mac) => seq![
            seq![
                colored(
                    "⟳ connecting "@ + mac
                        + " (press c/Enter or click Connect to cancel)"@,
                    Color::Yellow,
                ),
            ],
        ],
        None => seq![],
    }) + (if v.status.len() > 0 {
        seq![seq![colored(v.status, Color::Cyan)]]
    } else {
        seq![]
    })
}

/// The details of the selected device.
pub open spec fn detail_panel(v: AppView, area: Rect) -> PanelView {
    PanelView { area, title: " detail "@, lines: detail_lines(v), wrap: true }
}

/// The details of the selected device.
pub fn render_detail(app: &App, area: Rect) -> (p: Panel)
    ensures
        p@ == detail_panel(app@, area),
{
    let mut lines: Vec<Line> = match app.selected_device() {
        Some(d) => facts(&d, &app.default_mac),
        None => vec![one(plain("no device selected"))],
    };
    let ghost first = line_views(lines@);
    proof {
        if tui::selected(app@) is None {
            assert(first == seq![seq![raw("no device selected"@)]]);
        }
    }
    lines.push(one(Span { text: String::new(), fg: None, bold: false }));
    assert(line_views(lines@) == first + seq![seq![raw(seq![])]]);
    if let Some(mac) = &app.connecting {
        let t: String = "⟳ connecting ".to_owned().concat(mac.as_str()).concat(
            " (press c/Enter or click Connect to cancel)",
        );
        lines.push(one(tinted(t.as_str(), Color::Yellow)));
    }
    if !app.status.as_str().is_empty() {
        lines.push(one(tinted(app.status.as_str(), Color::Cyan)));
    }
    assert(line_views(lines@) == detail_lines(app@));
    Panel { area, title: " detail ".to_owned(), lines, wrap: true }
}

// ---- the log ----------------------------------------------------------------
/// The lines of the log that fit into the frame: the newest.
pub open spec fn visible_logs(logs: Seq<Seq<char>>, height: int) -> Seq<Seq<char>> {
    let rows = if height >= 2 {
        height - 2
    } else {
        0
    };
    if logs.len() > rows {
        logs.skip(logs.len() - rows)
    } else {
        logs
    }
}

/// Lines in the terminal's own style.
pub open spec fn raw_lines(t: Seq<Seq<char>>) -> Seq<Seq<SpanView>> {
    Seq::new(t.len(), |i: int| seq![raw(t[i])])
}

/// The log.
pub open spec fn log_panel(v: AppView, area: Rect) -> PanelView {
    PanelView {
        area,
        title: " log "@,
        lines: raw_lines(visible_logs(v.logs, area.height as int)),
        wrap: false,
    }
}

/// The log.
pub fn render_log(app: &App, area: Rect) -> (p: Panel)
    ensures
        p@ == log_panel(app@, area),
{
    let rows: usize = if area.height >= 2 {
        area.height as usize - 2
    } else {
        0
    };
    let n: usize = app.logs.len();
    let start: usize = if n > rows {
        n - rows
    } else {
        0
    };
    let ghost want = visible_logs(app@.logs, area.height as int);
    assert(app@.logs.skip(0) == app@.logs);
    assert(want == app@.logs.skip(start as int));
    let mut lines: Vec<Line> = Vec::new();
    let mut i: usize = start;
    while i < n
        invariant
            start <= i <= n,
            n == app.logs@.len(),
            lines@.len() == i - start,
            want == app@.logs.skip(start as int),
            forall|j: int| 0 <= j < i - start ==> #[trigger] lines@[j]@ == seq![raw(want[j])],
        decreases n - i,
    {
        lines.push(one(plain(app.logs[i].as_str())));
        i += 1;
    }
    assert(line_views(lines@) == raw_lines(want));
    Panel { area, title: " log ".to_owned(), lines, wrap: false }
}

// ---- the buttons ------------------------------------------------------------
/// The buttons from left to right.
pub open spec fn bar() -> Seq<Action> {
    seq![
        Action::Connect,
        Action::Disconnect,
        Action::Pair,
        Action::Remove,
        Action::ToggleTrust,
        Action::ToggleScan,
        Action::SetDefault,
        Action::Quit,
    ]
}

/// What stands on a button.
pub open spec fn label(action: Action, connecting: bool, scanning: bool) -> Seq<char> {
    match action {
        Action::Connect => if connecting {
            "[ Cancel ]"@
        } else {
            "[ Connect ]"@
        },
        Action::Disconnect => "[ Disconnect ]"@,
        Action::Pair => "[ Pair ]"@,
        Action::Remove => "[ Remove ]"@,
        Action::ToggleTrust => "[ Trust ]"@,
        Action::ToggleScan => if scanning {
            "[ Scan✓ ]"@
        } else {
            "[ Scan ]"@
        },
        Action::SetDefault => "[ ★Default ]"@,
        Action::Quit => "[ Quit ]"@,
    }
}

/// The colour of a button.
pub open spec fn button_color(action: Action, connecting: bool) -> Color {
    match action {
        Action::Connect => if connecting {
            Color::Red
        } else {
            Color::Green
        },
        Action::Quit => Color::Red,
        Action::SetDefault => Color::Yellow,
        _ => Color::White,
    }
}

/// How many columns the first `n` buttons take, each with the gap behind it.
pub open spec fn bar_width(n: int, connecting: bool, scanning: bool) -> int
    decreases n,
{
    if n <= 0 {
        0
    } else {
        bar_width(n - 1, connecting, scanning) + label(bar()[n - 1], connecting, scanning).len() + 1
    }
}

/// Whether the cells of all buttons can be counted.
pub open spec fn bar_fits(area: Rect, connecting: bool, scanning: bool) -> bool {
    &&& area.y < u16::MAX
    &&& area.x + 1 + bar_width(8, connecting, scanning) <= u16::MAX
}

/// The button of that number, inside the frame of an area.
pub open spec fn placed(i: int, area: Rect, connecting: bool, scanning: bool) -> Button {
    let x0 = area.x + 1 + bar_width(i, connecting, scanning);
    Button {
        action: bar()[i],
        x0: x0 as u16,
        x1: (x0 + label(bar()[i], connecting, scanning).len()) as u16,
        y: (area.y + 1) as u16,
    }
}

/// The buttons inside the frame of an area.
pub open spec fn placed_all(area: Rect, connecting: bool, scanning: bool) -> Seq<Button> {
    Seq::new(8, |i: int| placed(i, area, connecting, scanning))
}

/// The text of the first `n` buttons, each with the gap behind it.
pub open spec fn bar_spans(n: int, connecting: bool, scanning: bool) -> Seq<SpanView>
    decreases n,
{
    if n <= 0 {
        seq![]
    } else {
        bar_spans(n - 1, connecting, scanning).push(
            SpanView {
                text: label(bar()[n - 1], connecting, scanning),
                fg: Some(button_color(bar()[n - 1], connecting)),
                bold: true,
            },
        ).push(raw(" "@))
    }
}

/// The bar of buttons.
pub open spec fn button_panel(v: AppView, area: Rect) -> PanelView {
    PanelView {
        area,
        title: " actions — click or use keys: c/Enter d p r t s f q "@,
        lines: seq![bar_spans(8, v.connecting is Some, v.scanning)],
        wrap: false,
    }
}

/// What stands on a button.
fn label_text(action: Action, connecting: bool, scanning: bool) -> (r: &'static str)
    ensures
        r@ == label(action, connecting, scanning),
{
    match action {
        Action::Connect => if connecting {
            "[ Cancel ]"
        } else {
            "[ Connect ]"
        },
        Action::Disconnect => "[ Disconnect ]",
        Action::Pair => "[ Pair ]",
        Action::Remove => "[ Remove ]",
        Action::ToggleTrust => "[ Trust ]",
        Action::ToggleScan => if scanning {
            "[ Scan✓ ]"
        } else {
            "[ Scan ]"
        },
        Action::SetDefault => "[ ★Default ]",
        Action::Quit => "[ Quit ]",
    }
}

/// The colour of a button.
fn color_of(action: Action, connecting: bool) -> (c: Color)
    ensures
        c == button_color(action, connecting),
{
    match action {
        Action::Connect => if connecting {
            Color::Red
        } else {
            Color::Green
        },
        Action::Quit => Color::Red,
        Action::SetDefault => Color::Yellow,
        _ => Color::White,
    }
}

/// Something stands on every button.
pub proof fn lemma_labels_are_not_empty(action: Action, connecting: bool, scanning: bool)
    ensures
        label(action, connecting, scanning).len() > 0,
{
    reveal_strlit("[ Cancel ]");
    reveal_strlit("[ Connect ]");
    reveal_strlit("[ Disconnect ]");
    reveal_strlit("[ Pair ]");
    reveal_strlit("[ Remove ]");
    reveal_strlit("[ Trust ]");
    reveal_strlit("[ Scan✓ ]");
    reveal_strlit("[ Scan ]");
    reveal_strlit("[ ★Default ]");
    reveal_strlit("[ Quit ]");
}

/// A shorter part of the bar is no wider.
pub proof fn lemma_bar_grows(n: int, m: int, connecting: bool, scanning: bool)
    requires
        0 <= n <= m,
    ensures
        0 <= bar_width(n, connecting, scanning) <= bar_width(m, connecting, scanning),
    decreases m,
{
    if m > n {
        lemma_bar_grows(n, m - 1, connecting, scanning);
    } else if n > 0 {
        lemma_bar_grows(n - 1, n - 1, connecting, scanning);
    }
}

/// How many columns all buttons take.
pub proof fn lemma_bar_cells(connecting: bool, scanning: bool)
    ensures
        bar_width(8, connecting, scanning) == 88 - (if connecting {
            1int
        } else {
            0
        }) + (if scanning {
            1int
        } else {
            0
        }),
{
    reveal_strlit("[ Cancel ]");
    reveal_strlit("[ Connect ]");
    reveal_strlit("[ Disconnect ]");
    reveal_strlit("[ Pair ]");
    reveal_strlit("[ Remove ]");
    reveal_strlit("[ Trust ]");
    reveal_strlit("[ Scan✓ ]");
    reveal_strlit("[ Scan ]");
    reveal_strlit("[ ★Default ]");
    reveal_strlit("[ Quit ]");
    reveal_with_fuel(bar_width, 9);
}

/// How many columns all buttons take, each with the gap behind it.
pub fn bar_cells(connecting: bool, scanning: bool) -> (r: u32)
    ensures
        r == bar_width(8, connecting, scanning),
        r <= 89,
{
    proof {
        lemma_bar_cells(connecting, scanning);
    }
    let first: u32 = if connecting {
        87
    } else {
        88
    };
    if scanning {
        first + 1
    } else {
        first
    }
}

/// The bar of buttons. Where they are drawn is where clicks on them are looked
/// for.
pub fn render_buttons(app: &mut App, area: Rect) -> (p: Panel)
    requires
        bar_fits(area, old(app)@.connecting is Some, old(app)@.scanning),
    ensures
        final(app)@ == (AppView {
            buttons: placed_all(area, old(app)@.connecting is Some, old(app)@.scanning),
            ..old(app)@
        }),
        p@ == button_panel(old(app)@, area),
{
    let connecting: bool = app.connecting.is_some();
    let scanning: bool = app.scanning;
    let actions: Vec<Action> = vec![
        Action::Connect,
        Action::Disconnect,
        Action::Pair,
        Action::Remove,
        Action::ToggleTrust,
        Action::ToggleScan,
        Action::SetDefault,
        Action::Quit,
    ];
    assert(actions@ == bar());
    let ghost want = placed_all(area, connecting, scanning);
    let mut buttons: Vec<Button> = Vec::new();
    let mut spans: Vec<Span> = Vec::new();
    let y: u16 = area.y + 1;
    proof {
        lemma_bar_grows(0, 8, connecting, scanning);
    }
    let mut x: u16 = area.x + 1;
    let mut i: usize = 0;
    assert(span_views(spans@) == bar_spans(0, connecting, scanning));
    while i < actions.len()
        invariant
            i <= 8,
            actions@ == bar(),
            actions@.len() == 8,
            area.y < u16::MAX,
            y == area.y + 1,
            bar_fits(area, connecting, scanning),
            x == area.x + 1 + bar_width(i as int, connecting, scanning),
            want == placed_all(area, connecting, scanning),
            buttons@ == want.take(i as int),
            span_views(spans@) == bar_spans(i as int, connecting, scanning),
        decreases 8 - i,
    {
        let action: Action = actions[i];
        let t: &str = label_text(action, connecting, scanning);
        let w: usize = t.unicode_len();
        proof {
            lemma_bar_grows(i as int, i as int, connecting, scanning);
            lemma_bar_grows(i + 1, 8, connecting, scanning);
            assert(bar_width(i + 1, connecting, scanning) == bar_width(
                i as int,
                connecting,
                scanning,
            ) + w + 1);
        }
        let b = Button { action, x0: x, x1: x + w as u16, y };
        buttons.push(b);
        proof {
            assert(want[i as int] == b);
            assert(want.take(i + 1) == want.take(i as int).push(b));
        }
        spans.push(
            Span { text: t.to_owned(), fg: Some(color_of(action, connecting)), bold: true },
        );
        spans.push(plain(" "));
        assert(span_views(spans@) == bar_spans(i + 1, connecting, scanning));
        x = x + w as u16 + 1;
        i += 1;
    }
    assert(want.take(8) == want);
    app.buttons = buttons;
    let lines: Vec<Line> = vec![Line { spans }];
    assert(line_views(lines@) == seq![bar_spans(8, connecting, scanning)]);
    Panel {
        area,
        title: " actions — click or use keys: c/Enter d p r t s f q ".to_owned(),
        lines,
        wrap: false,
    }
}

// ---- what is shown, and how -------------------------------------------------
/// What is said of spans, lines and panels is said of what they hold.
pub proof fn law_views(s: Span, l: Line, p: Panel, v: Seq<Line>, i: int)
    ensures
        s@.text == s.text@,
        s@.fg == s.fg,
        s@.bold == s.bold,
        l@.len() == l.spans@.len(),
        0 <= i < l.spans@.len() ==> l@[i] == l.spans@[i]@,
        p@.area == p.area,
        p@.title == p.title@,
        p@.wrap == p.wrap,
        p@.lines.len() == p.lines@.len(),
        0 <= i < p.lines@.len() ==> p@.lines[i] == p.lines@[i]@,
        line_views(v).len() == v.len(),
        0 <= i < v.len() ==> line_views(v)[i] == v[i]@,
{
}

/// Text in a style is that text, in that colour or in the terminal's own, and bold
/// only where it is meant to be.
pub proof fn law_styles(t: Seq<char>, c: Color, a: Color, b: Color)
    ensures
        raw(t).text == t && raw(t).fg is None && !raw(t).bold,
        colored(t, c).text == t && colored(t, c).fg == Some(c) && !colored(t, c).bold,
        bold(t).text == t && bold(t).fg is None && bold(t).bold,
        either(true, a, b) == a,
        either(false, a, b) == b,
        yes_no(true) == "yes"@,
        yes_no(false) == "no"@,
{
}

/// A text that is too long ends with an ellipsis and begins as it did.
pub proof fn law_cut_texts(s: Seq<char>, max: int)
    requires
        0 <= max < s.len(),
    ensures
        shortened(s, max).last() == '…',
        shortened(s, max).drop_last() == s.take(if max > 0 {
            max - 1
        } else {
            0
        }),
{
    reveal_strlit("…");
    assert(shortened(s, max).drop_last() == s.take(if max > 0 {
        max - 1
    } else {
        0
    }));
}

/// A text is filled up behind, with spaces, to its width, and not at all where it is
/// as wide.
pub proof fn law_filled_up(s: Seq<char>, width: int, i: int)
    requires
        width >= 0,
    ensures
        padded(s, width).len() == (if s.len() < width {
            width
        } else {
            s.len() as int
        }),
        padded(s, width).take(s.len() as int) == s,
        s.len() <= i < width ==> padded(s, width)[i] == ' ',
{
    assert(padded(s, width).take(s.len() as int) == s);
}

/// The charge is shown in percent where it is known and not nought.
pub proof fn law_charge(d: DeviceView, b: u8)
    ensures
        d.battery is None || d.battery == Some(0u8) ==> charge(d).len() == 0,
        d.battery == Some(b) && b > 0 ==> charge(d) == seq![' '] + number::decimal(b as nat) + seq!['%'],
{
    reveal_strlit(" ");
    reveal_strlit("%");
    assert(" "@ == seq![' '] && "%"@ == seq!['%']);
}

/// What the header shows, piece by piece.
pub proof fn law_header(v: AppView)
    ensures
        ({
            let l = header_line(v);
            let busy = v.scanning || v.adapter.discovering;
            &&& l.len() == 9
            &&& l[0] == (SpanView { text: " ⬢ "@, fg: Some(Color::Cyan), bold: false })
            &&& l[1].bold && l[1].fg is None
            &&& v.adapter.name.len() > 0 ==> l[1].text == v.adapter.name + seq![' ']
            &&& v.adapter.name.len() == 0 ==> l[1].text == "adapter "@
            &&& l[2] == (SpanView {
                text: seq!['['] + v.adapter.mac + "]  "@,
                fg: Some(Color::DarkGray),
                bold: false,
            })
            &&& l[3] == (SpanView { text: "power:"@, fg: None, bold: false })
            &&& v.adapter.powered ==> l[4] == (SpanView {
                text: "on "@,
                fg: Some(Color::Green),
                bold: false,
            })
            &&& !v.adapter.powered ==> l[4] == (SpanView {
                text: "off "@,
                fg: Some(Color::DarkGray),
                bold: false,
            })
            &&& l[5] == (SpanView { text: " "@, fg: None, bold: false })
            &&& busy ==> l[6] == (SpanView {
                text: "SCANNING "@,
                fg: Some(Color::Yellow),
                bold: false,
            })
            &&& !busy ==> l[6] == (SpanView {
                text: "idle "@,
                fg: Some(Color::DarkGray),
                bold: false,
            })
            &&& l[7] == (SpanView { text: " default:"@, fg: None, bold: false })
            &&& l[8].fg == Some(Color::Yellow) && !l[8].bold
            &&& v.default_mac is Some ==> l[8].text == v.default_mac->0
            &&& v.default_mac is None ==> l[8].text == "none"@
        }),
{
    reveal_strlit(" ");
    reveal_strlit("[");
    reveal_strlit("adapter");
    reveal_strlit("adapter ");
    assert(" "@ == seq![' '] && "["@ == seq!['[']);
    assert("adapter"@ + " "@ == "adapter "@);
}

/// What the row of a device shows, piece by piece: whether it is connected, whether
/// it is the default, its name in twenty-eight columns, whether it is paired and
/// trusted, its charge, and its signal where that is known.
pub proof fn law_device_row(d: DeviceView, default_mac: Option<Seq<char>>, r: i32)
    ensures
        ({
            let l = device_row(d, default_mac);
            &&& d.rssi is None ==> l.len() == 5
            &&& d.rssi == Some(r) ==> l.len() == 6 && l[5] == (SpanView {
                text: seq![' '] + number::signed(r as int) + "dBm"@,
                fg: Some(Color::DarkGray),
                bold: false,
            })
            &&& d.connected ==> l[0] == (SpanView {
                text: " ● "@,
                fg: Some(Color::Green),
                bold: false,
            })
            &&& !d.connected ==> l[0] == (SpanView {
                text: " ○ "@,
                fg: Some(Color::DarkGray),
                bold: false,
            })
            &&& l[1].fg == Some(Color::Yellow) && !l[1].bold
            &&& default_mac is Some && default_mac->0 == d.mac ==> l[1].text == seq!['★', ' ']
            &&& default_mac is None || default_mac->0 != d.mac ==> l[1].text == seq![' ', ' ']
            &&& l[2].fg is None && l[2].bold == d.connected && l[2].text.len() == 28
            &&& d.name.len() <= 28 ==> l[2].text.take(d.name.len() as int) == d.name && forall|
                i: int,
            |
                d.name.len() <= i < 28 ==> #[trigger] l[2].text[i] == ' '
            &&& d.name.len() > 28 ==> l[2].text == d.name.take(27).push('…')
            &&& l[3].fg == Some(Color::Blue) && !l[3].bold
            &&& d.paired && d.trusted ==> l[3].text == "paired trusted "@
            &&& d.paired && !d.trusted ==> l[3].text == "paired "@
            &&& !d.paired && d.trusted ==> l[3].text == "trusted "@
            &&& !d.paired && !d.trusted ==> l[3].text.len() == 0
            &&& l[4] == (SpanView { text: charge(d), fg: Some(Color::Green), bold: false })
        }),
{
    reveal_strlit(" ");
    reveal_strlit("  ");
    reveal_strlit("★ ");
    reveal_strlit("…");
    reveal_strlit("paired ");
    reveal_strlit("trusted ");
    reveal_strlit("paired trusted ");
    assert(" "@ == seq![' '] && "  "@ == seq![' ', ' '] && "★ "@ == seq!['★', ' ']);
    assert("paired "@ + "trusted "@ == "paired trusted "@);
    assert("paired "@ + Seq::<char>::empty() == "paired "@);
    assert(Seq::<char>::empty() + "trusted "@ == "trusted "@);
    let l = device_row(d, default_mac);
    let t = shortened(d.name, 28);
    law_shortened_fits(d.name, 28);
    law_filled_up(t, 28, 0);
    if d.name.len() <= 28 {
        assert(l[2].text.take(d.name.len() as int) == d.name);
        assert forall|i: int| d.name.len() <= i < 28 implies #[trigger] l[2].text[i] == ' ' by {
            law_filled_up(t, 28, i);
        }
    } else {
        law_cut_texts(d.name, 28);
        assert(t == t.drop_last().push(t.last()));
        assert(padded(t, 28) == t);
    }
}

/// The list has one row for each device, in the order of the devices, and says how
/// many there are.
pub proof fn law_list(v: AppView, area: Rect, i: int)
    ensures
        list_panel(v, area).area == area,
        list_panel(v, area).title == " devices ("@ + number::decimal(v.devices.len()) + ") "@,
        !list_panel(v, area).wrap,
        list_panel(v, area).lines.len() == v.devices.len(),
        0 <= i < v.devices.len() ==> list_panel(v, area).lines[i] == device_row(
            v.devices[i],
            v.default_mac,
        ),
{
}

/// What a line of the details is: a label in twelve columns, and behind it the fact.
pub proof fn law_fact(what: Seq<char>, how: Seq<char>, c: Color, i: int)
    requires
        what.len() <= 12,
    ensures
        fact(what, how, c).len() == 2,
        fact(what, how, c)[0].text.len() == 12,
        fact(what, how, c)[0].text.take(what.len() as int) == what,
        what.len() <= i < 12 ==> fact(what, how, c)[0].text[i] == ' ',
        fact(what, how, c)[0].fg == Some(Color::DarkGray),
        !fact(what, how, c)[0].bold,
        fact(what, how, c)[1] == (SpanView { text: how, fg: Some(c), bold: false }),
{
    law_filled_up(what, 12, i);
}

/// What is told of a device, line by line. What is not known of it has no line.
pub proof fn law_device_facts(d: DeviceView, default_mac: Option<Seq<char>>, b: u8, r: i32)
    ensures
        ({
            let l = device_facts(d, default_mac);
            let icon: int = if d.icon.len() > 0 {
                1
            } else {
                0
            };
            let charged: int = if d.battery is Some && d.battery->0 > 0 {
                1
            } else {
                0
            };
            let heard: int = if d.rssi is Some {
                1
            } else {
                0
            };
            let default = default_mac is Some && default_mac->0 == d.mac;
            &&& l.len() == 6 + icon + charged + heard
            &&& l[0] == seq![SpanView { text: d.name, fg: None, bold: true }]
            &&& l[1] == fact("mac"@, d.mac, Color::White)
            &&& icon == 1 ==> l[2] == fact("type"@, d.icon, Color::White)
            &&& d.connected ==> l[2 + icon] == fact("connected"@, "yes"@, Color::Green)
            &&& !d.connected ==> l[2 + icon] == fact("connected"@, "no"@, Color::Red)
            &&& d.paired ==> l[3 + icon] == fact("paired"@, "yes"@, Color::White)
            &&& !d.paired ==> l[3 + icon] == fact("paired"@, "no"@, Color::White)
            &&& d.trusted ==> l[4 + icon] == fact("trusted"@, "yes"@, Color::Green)
            &&& !d.trusted ==> l[4 + icon] == fact("trusted"@, "no"@, Color::Yellow)
            &&& charged == 1 && d.battery == Some(b) ==> l[5 + icon] == fact(
                "battery"@,
                number::decimal(b as nat) + seq!['%'],
                Color::Green,
            )
            &&& d.rssi == Some(r) ==> l[5 + icon + charged] == fact(
                "rssi"@,
                number::signed(r as int) + " dBm"@,
                Color::White,
            )
            &&& default ==> l.last() == fact("default"@, "yes"@, Color::Yellow)
            &&& !default ==> l.last() == fact("default"@, "no"@, Color::DarkGray)
        }),
{
    reveal_strlit("%");
    assert("%"@ == seq!['%']);
}

/// What the details show: the selected device or that there is none, an empty line,
/// the attempt that is under way, and the status.
pub proof fn law_details(v: AppView, area: Rect)
    ensures
        ({
            let l = detail_lines(v);
            let n: int = if tui::selected(v) is Some {
                device_facts(tui::selected(v)->0, v.default_mac).len() as int
            } else {
                1
            };
            let trying: int = if v.connecting is Some {
                1
            } else {
                0
            };
            &&& l.len() == n + 1 + trying + (if v.status.len() > 0 {
                1int
            } else {
                0
            })
            &&& tui::selected(v) is Some ==> l.take(n) == device_facts(
                tui::selected(v)->0,
                v.default_mac,
            )
            &&& tui::selected(v) is None ==> l[0] == seq![
                SpanView { text: "no device selected"@, fg: None, bold: false },
            ]
            &&& l[n].len() == 1 && l[n][0].text.len() == 0
            &&& v.connecting is Some ==> l[n + 1] == seq![
                SpanView {
                    text: "⟳ connecting "@ + v.connecting->0
                        + " (press c/Enter or click Connect to cancel)"@,
                    fg: Some(Color::Yellow),
                    bold: false,
                },
            ]
            &&& v.status.len() > 0 ==> l.last() == seq![
                SpanView { text: v.status, fg: Some(Color::Cyan), bold: false },
            ]
            &&& detail_panel(v, area) == (PanelView {
                area,
                title: " detail "@,
                lines: l,
                wrap: true,
            })
        }),
{
    let l = detail_lines(v);
    if tui::selected(v) is Some {
        let f = device_facts(tui::selected(v)->0, v.default_mac);
        assert(l.take(f.len() as int) == f);
    }
}

/// The log shows its newest lines, as many as the frame has rows, oldest first.
pub proof fn law_log_panel(v: AppView, area: Rect, i: int)
    ensures
        ({
            let rows: int = if area.height > 2 {
                area.height - 2
            } else {
                0
            };
            let n: int = if v.logs.len() < rows {
                v.logs.len() as int
            } else {
                rows
            };
            let p = log_panel(v, area);
            &&& p.area == area && p.title == " log "@ && !p.wrap
            &&& p.lines.len() == n
            &&& 0 <= i < n ==> p.lines[i] == seq![
                SpanView { text: v.logs[v.logs.len() - n + i], fg: None, bold: false },
            ]
        }),
{
}

/// The header and the bar are one line each, under their titles.
pub proof fn law_titles(v: AppView, area: Rect)
    ensures
        header_panel(v, area) == (PanelView {
            area,
            title: " btkick "@,
            lines: seq![header_line(v)],
            wrap: false,
        }),
        button_panel(v, area) == (PanelView {
            area,
            title: " actions — click or use keys: c/Enter d p r t s f q "@,
            lines: seq![bar_spans(8, v.connecting is Some, v.scanning)],
            wrap: false,
        }),
{
}

/// The buttons from left to right, what stands on them, and their colours.
pub proof fn law_bar(connecting: bool, scanning: bool)
    ensures
        bar() == seq![
            Action::Connect,
            Action::Disconnect,
            Action::Pair,
            Action::Remove,
            Action::ToggleTrust,
            Action::ToggleScan,
            Action::SetDefault,
            Action::Quit,
        ],
        label(Action::Connect, true, scanning) == "[ Cancel ]"@,
        label(Action::Connect, false, scanning) == "[ Connect ]"@,
        label(Action::Disconnect, connecting, scanning) == "[ Disconnect ]"@,
        label(Action::Pair, connecting, scanning) == "[ Pair ]"@,
        label(Action::Remove, connecting, scanning) == "[ Remove ]"@,
        label(Action::ToggleTrust, connecting, scanning) == "[ Trust ]"@,
        label(Action::ToggleScan, connecting, true) == "[ Scan✓ ]"@,
        label(Action::ToggleScan, connecting, false) == "[ Scan ]"@,
        label(Action::SetDefault, connecting, scanning) == "[ ★Default ]"@,
        label(Action::Quit, connecting, scanning) == "[ Quit ]"@,
        button_color(Action::Connect, true) == Color::Red,
        button_color(Action::Connect, false) == Color::Green,
        button_color(Action::Quit, connecting) == Color::Red,
        button_color(Action::SetDefault, connecting) == Color::Yellow,
        button_color(Action::Disconnect, connecting) == Color::White,
        button_color(Action::Pair, connecting) == Color::White,
        button_color(Action::Remove, connecting) == Color::White,
        button_color(Action::ToggleTrust, connecting) == Color::White,
        button_color(Action::ToggleScan, connecting) == Color::White,
{
}

/// Each button is drawn bold in its colour, with one gap behind it.
pub proof fn law_bar_text(connecting: bool, scanning: bool, n: int, i: int)
    requires
        0 <= i < n <= 8,
    ensures
        bar_spans(n, connecting, scanning).len() == 2 * n,
        bar_spans(n, connecting, scanning)[2 * i] == (SpanView {
            text: label(bar()[i], connecting, scanning),
            fg: Some(button_color(bar()[i], connecting)),
            bold: true,
        }),
        bar_spans(n, connecting, scanning)[2 * i + 1] == (SpanView {
            text: " "@,
            fg: None,
            bold: false,
        }),
    decreases n,
{
    if i < n - 1 {
        law_bar_text(connecting, scanning, n - 1, i);
    } else if n > 1 {
        law_bar_text(connecting, scanning, n - 1, 0);
    } else {
        assert(bar_spans(0, connecting, scanning) == Seq::<SpanView>::empty());
    }
}

/// The buttons lie where they are drawn: the first begins inside the frame, each is
/// as wide as what stands on it, and the next begins behind the gap.
pub proof fn law_buttons_lie_where_they_are_drawn(
    area: Rect,
    connecting: bool,
    scanning: bool,
    i: int,
)
    requires
        bar_fits(area, connecting, scanning),
        0 <= i < 8,
    ensures
        ({
            let all = placed_all(area, connecting, scanning);
            &&& all.len() == 8
            &&& all[i].action == bar()[i]
            &&& all[i].y == area.y + 1
            &&& all[0].x0 == area.x + 1
            &&& all[i].x1 == all[i].x0 + label(bar()[i], connecting, scanning).len()
            &&& i < 7 ==> all[i + 1].x0 == all[i].x1 + 1
        }),
{
    lemma_bar_grows(0, 0, connecting, scanning);
    lemma_bar_grows(i, i, connecting, scanning);
    lemma_bar_grows(i + 1, 8, connecting, scanning);
    lemma_bar_grows(i + 1, i + 1, connecting, scanning);
}

/// The bar can be drawn wherever its last button still has a column.
pub proof fn law_when_the_bar_fits(area: Rect, connecting: bool, scanning: bool)
    ensures
        bar_fits(area, connecting, scanning) <==> area.y < u16::MAX && area.x + 89 + (if scanning {
            1int
        } else {
            0
        }) - (if connecting {
            1int
        } else {
            0
        }) <= u16::MAX,
{
    lemma_bar_cells(connecting, scanning);
}

/// How the selected row stands out.
pub proof fn law_highlight()
    ensures
        HIGHLIGHT@ == "▏"@,
        HIGHLIGHT_COLOR == 238,
{
}

/// A list that has become shorter is shown from its last row at most, with the
/// selection on a row that it has. An empty one has no selection, and where the
/// frame leaves no room nothing changes.
pub proof fn law_scrolling_a_shorter_list(rows: nat, l: ListState, area: Rect)
    requires
        rows <= usize::MAX,
    ensures
        area.width <= 2 || area.height <= 2 ==> scrolled(rows, l, area) == l,
        area.width > 2 && area.height > 2 && rows == 0 ==> scrolled(rows, l, area) == (ListState {
            selected: None,
            offset: 0,
        }),
        area.width > 2 && area.height > 2 && rows > 0 && l.offset >= rows ==> scrolled(rows, l, area)
            == scrolled(rows, ListState { offset: (rows - 1) as usize, ..l }, area),
        area.width > 2 && area.height > 2 && rows > 0 && l.selected is Some && l.selected->0 >= rows
            ==> scrolled(rows, l, area) == scrolled(
            rows,
            ListState { selected: Some((rows - 1) as usize), ..l },
            area,
        ),
{
}

/// Drawing the list changes where it stands, and where it is, and nothing else.
pub proof fn law_drawn_list(v: AppView, area: Rect)
    ensures
        listed(v, area) == (AppView {
            list_area: area,
            list_state: scrolled(v.devices.len(), v.list_state, area),
            ..v
        }),
{
}

/// A list whose selected row is in view is not scrolled; one above is shown first,
/// and one below last. Without a selection the list stays where it is.
pub proof fn law_scrolling(rows: nat, l: ListState, area: Rect, s: usize)
    requires
        area.width > 2,
        area.height > 2,
        s < rows <= usize::MAX,
        l.offset < rows,
    ensures
        l.selected is None ==> scrolled(rows, l, area) == l,
        l.selected == Some(s) && l.offset <= s && s < l.offset + area.height - 2 ==> scrolled(
            rows,
            l,
            area,
        ) == l,
        l.selected == Some(s) && s < l.offset ==> scrolled(rows, l, area) == (ListState {
            offset: s,
            ..l
        }),
        l.selected == Some(s) && s >= l.offset + area.height - 2 ==> scrolled(rows, l, area)
            == (ListState { offset: (s - (area.height - 2) + 1) as usize, ..l }),
{
}

} // verus!
