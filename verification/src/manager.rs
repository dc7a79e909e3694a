//! What the interactive manager keeps to, whatever is pressed or clicked.

use crate::bt::{self, AdapterView, Device, DeviceView};
use crate::engine::{Progress, ProgressView};
use crate::layout::Rect;
use crate::tui::{self, Action, App, AppView, Effect, EffectView, Input, Key, ListState, Mouse};
use crate::{config, number, view};
use vstd::prelude::*;

verus! {

/// Whether the selection is on a row that the list has, or there is none where
/// the list is empty.
pub open spec fn settled(v: AppView) -> bool {
    match v.list_state.selected {
        Some(i) => i < v.devices.len(),
        None => v.devices.len() == 0,
    }
}

/// Whether the log keeps to its size.
pub open spec fn log_is_short(v: AppView) -> bool {
    v.logs.len() <= tui::LOG_LINES
}

/// However the list changes underneath, the selection can be brought back to a
/// row that it has, and one that is on such a row stays.
pub proof fn law_selection_can_be_kept(v: AppView)
    requires
        v.devices.len() <= usize::MAX,
    ensures
        settled(tui::clamped(v)),
        settled(v) && v.devices.len() > 0 ==> tui::clamped(v) == v,
        tui::selected(tui::clamped(v)) is Some <==> v.devices.len() > 0,
{
}

/// Nothing that comes from the terminal takes the selection off the list, lets
/// the log grow beyond its size, or changes what is known of the devices.
pub proof fn law_input_keeps_order(v: AppView, input: Input)
    requires
        settled(v),
        v.devices.len() <= usize::MAX,
    ensures
        settled(tui::on_input(v, input).0),
        log_is_short(v) ==> log_is_short(tui::on_input(v, input).0),
        tui::on_input(v, input).0.devices == v.devices,
        tui::on_input(v, input).0.adapter == v.adapter,
{
    if v.devices.len() > 0 {
        let n = v.devices.len() as int;
        let from: int = v.list_state.selected->0 as int;
        vstd::arithmetic::div_mod::lemma_mod_bound(from + 1, n);
        vstd::arithmetic::div_mod::lemma_mod_bound(from - 1, n);
    }
}

/// Moving the selection down and then up, or up and then down, leaves it where
/// it was.
pub proof fn law_up_undoes_down(v: AppView)
    requires
        settled(v),
        v.devices.len() <= usize::MAX,
    ensures
        tui::moved(tui::moved(v, 1), -1) == v,
        tui::moved(tui::moved(v, -1), 1) == v,
{
    if v.devices.len() > 0 {
        let n = v.devices.len() as int;
        let i = v.list_state.selected->0 as int;
        lemma_step_in_ring(i, n);
        lemma_step_in_ring((i + 1) % n, n);
        lemma_step_in_ring((i - 1) % n, n);
    }
}

/// One step in a ring of `n`.
proof fn lemma_step_in_ring(i: int, n: int)
    requires
        0 <= i < n,
    ensures
        (i + 1) % n == (if i + 1 == n {
            0
        } else {
            i + 1
        }),
        (i - 1) % n == (if i == 0 {
            n - 1
        } else {
            i - 1
        }),
{
    if i + 1 == n {
        vstd::arithmetic::div_mod::lemma_mod_self_0(n);
    } else {
        vstd::arithmetic::div_mod::lemma_small_mod((i + 1) as nat, n as nat);
    }
    if i == 0 {
        vstd::arithmetic::div_mod::lemma_fundamental_div_mod_converse(-1, n, -1, n - 1);
    } else {
        vstd::arithmetic::div_mod::lemma_small_mod((i - 1) as nat, n as nat);
    }
}

/// The selection goes round: down from the last row is the first, and up from
/// the first row is the last.
pub proof fn law_selection_goes_round(v: AppView)
    requires
        0 < v.devices.len() <= usize::MAX,
        settled(v),
    ensures
        v.list_state.selected == Some((v.devices.len() - 1) as usize) ==> tui::moved(
            v,
            1,
        ).list_state.selected == Some(0usize),
        v.list_state.selected == Some(0usize) ==> tui::moved(v, -1).list_state.selected == Some(
            (v.devices.len() - 1) as usize,
        ),
{
    lemma_step_in_ring(v.list_state.selected->0 as int, v.devices.len() as int);
}

/// The log keeps the newest lines: a line that is added is its last one, and
/// what else it holds are the lines before it, in order.
pub proof fn law_log_keeps_the_newest(v: AppView, line: Seq<char>)
    ensures
        log_is_short(tui::logged(v, line)),
        tui::logged(v, line).logs.last() == line,
        tui::logged(v, line).logs.is_suffix_of(v.logs.push(line)),
{
    let all = v.logs.push(line);
    let k = tui::kept(all);
    assert(all.skip(all.len() - k.len()) == k);
    assert(k == all.subrange(all.len() - k.len(), all.len() as int));
}

/// The same button starts an attempt for the selected device and, pressed while
/// one is under way, asks for its end, whatever is selected by then. The attempt
/// is under way until it says itself how it went.
pub proof fn law_connect_again_cancels(v: AppView)
    ensures
        v.connecting is None && tui::selected(v) is Some ==> {
            let (w, e) = tui::act(v, Action::Connect);
            &&& e == Some(EffectView::StartEngine(tui::selected(v)->0.mac))
            &&& w.connecting == Some(tui::selected(v)->0.mac)
        },
        v.connecting is Some ==> tui::act(v, Action::Connect) == (
            AppView { status: "canceling…"@, ..v },
            Some(EffectView::StopEngine),
        ),
{
}

/// Wherever the screen says that Connect cancels, it does: the key, Enter, and a
/// click on the button that says so.
pub proof fn law_cancel_is_always_there(v: AppView, area: Rect, col: u16, row: u16)
    requires
        v.connecting is Some,
        view::bar_fits(area, true, v.scanning),
        v.buttons == view::placed_all(area, true, v.scanning),
        tui::covers(v.buttons[0], col, row),
    ensures
        view::label(v.buttons[0].action, true, v.scanning) == "[ Cancel ]"@,
        tui::on_key(v, Key::Char('c')).1 == Some(EffectView::StopEngine),
        tui::on_key(v, Key::Enter).1 == Some(EffectView::StopEngine),
        tui::click(v, col, row).1 == Some(EffectView::StopEngine),
{
    law_click_does_what_the_key_does(v, area, 0, col, row, Key::Enter);
}

/// No input starts an attempt while one is under way.
pub proof fn law_one_attempt_at_a_time(v: AppView, input: Input)
    requires
        v.connecting is Some,
    ensures
        !(tui::on_input(v, input).1 matches Some(EffectView::StartEngine(_))),
        tui::on_input(v, input).0.connecting == v.connecting,
{
}

/// News only change the log, the status and whether an attempt is under way.
proof fn lemma_news(v: AppView, news: Seq<ProgressView>)
    ensures
        tui::heard_all(v, news).connecting == v.connecting,
        tui::heard_all(v, news).devices == v.devices,
    decreases news.len(),
{
    if news.len() > 0 {
        lemma_news(v, news.drop_last());
    }
}

/// The attempt is under way until news say that it is over, and then another
/// can be started.
pub proof fn law_attempt_lasts_until_its_last_word(v: AppView, news: Seq<ProgressView>)
    requires
        v.connecting is Some,
    ensures
        tui::drained(v, news).connecting is None <==> tui::is_final(news),
        !tui::is_final(news) ==> tui::drained(v, news).connecting == v.connecting,
        log_is_short(tui::drained(v, news)),
{
    lemma_news(v, news);
}

/// Turning the scan on and off again leaves it as it was.
pub proof fn law_scan_toggles(v: AppView)
    ensures
        tui::toggle_scan(v).0.scanning == !v.scanning,
        tui::toggle_scan(tui::toggle_scan(v).0).0.scanning == v.scanning,
{
}

/// Making a device the default shows: its row gets the star, the rows of other
/// devices lose it, and the header names it.
pub proof fn law_default_is_shown(v: AppView, mac: Seq<char>, i: int)
    requires
        0 <= i < v.devices.len(),
    ensures
        ({
            let w = tui::default_saved(v, mac, None);
            &&& view::device_rows(w)[i][1] == view::colored(
                if v.devices[i].mac == mac {
                    "★ "@
                } else {
                    "  "@
                },
                view::Color::Yellow,
            )
            &&& view::header_line(w).last() == view::colored(mac, view::Color::Yellow)
        }),
{
}

/// A default that could not be written changes nothing but the status.
pub proof fn law_failed_default_changes_nothing(v: AppView, mac: Seq<char>, e: Seq<char>)
    ensures
        tui::default_saved(v, mac, Some(e)) == (AppView {
            status: tui::default_saved(v, mac, Some(e)).status,
            ..v
        }),
{
}

/// What is written when the selected device is made the default is read back as
/// that device, where its address has no white space around it.
pub proof fn law_default_survives(v: AppView)
    requires
        tui::act(v, Action::SetDefault).1 is Some,
        config::named(tui::selected(v)->0.mac) == Some(tui::selected(v)->0.mac),
    ensures
        ({
            let mac = tui::act(v, Action::SetDefault).1->0->SaveDefault_0;
            config::named(config::default_line(mac)) == Some(tui::selected(v)->0.mac)
        }),
{
    config::law_default_reads_back(tui::selected(v)->0.mac);
}

/// No button reaches into one to its right.
proof fn lemma_buttons_apart(i: int, j: int, area: Rect, connecting: bool, scanning: bool)
    requires
        0 <= i < j < 8,
        view::bar_fits(area, connecting, scanning),
    ensures
        view::placed(i, area, connecting, scanning).x1 < view::placed(
            j,
            area,
            connecting,
            scanning,
        ).x0,
{
    view::lemma_bar_grows(i, i, connecting, scanning);
    view::lemma_bar_grows(i + 1, j, connecting, scanning);
    view::lemma_bar_grows(j, 8, connecting, scanning);
}

/// The first button that covers a cell is the only one.
proof fn lemma_hit(buttons: Seq<tui::Button>, k: int, col: u16, row: u16)
    requires
        0 <= k < buttons.len(),
        tui::covers(buttons[k], col, row),
        forall|j: int| 0 <= j < k ==> !tui::covers(#[trigger] buttons[j], col, row),
    ensures
        tui::button_at(buttons, col, row) == Some(buttons[k].action),
    decreases k,
{
    if k > 0 {
        assert(!tui::covers(buttons[0], col, row));
        assert forall|j: int| 0 <= j < k - 1 implies !tui::covers(
            #[trigger] buttons.skip(1)[j],
            col,
            row,
        ) by {
            assert(buttons.skip(1)[j] == buttons[j + 1]);
        }
        lemma_hit(buttons.skip(1), k - 1, col, row);
    }
}

/// Mouse and keyboard agree: a click anywhere on a button that has been drawn
/// does what the key of its action does.
pub proof fn law_click_does_what_the_key_does(
    v: AppView,
    area: Rect,
    i: int,
    col: u16,
    row: u16,
    key: Key,
)
    requires
        0 <= i < 8,
        view::bar_fits(area, v.connecting is Some, v.scanning),
        v.buttons == view::placed_all(area, v.connecting is Some, v.scanning),
        tui::covers(v.buttons[i], col, row),
        tui::key_action(key) == Some(view::bar()[i]),
    ensures
        tui::click(v, col, row) == tui::act(v, view::bar()[i]),
        tui::click(v, col, row) == tui::on_key(v, key),
{
    let (c, s) = (v.connecting is Some, v.scanning);
    assert forall|j: int| 0 <= j < i implies !tui::covers(#[trigger] v.buttons[j], col, row) by {
        lemma_buttons_apart(j, i, area, c, s);
        assert(v.buttons[j] == view::placed(j, area, c, s));
        assert(v.buttons[i] == view::placed(i, area, c, s));
    }
    lemma_hit(v.buttons, i, col, row);
}

/// Every action has a key, and its button is wide enough to be clicked.
pub proof fn law_every_action_can_be_reached(action: Action, area: Rect, v: AppView)
    requires
        view::bar_fits(area, v.connecting is Some, v.scanning),
    ensures
        exists|key: Key| #[trigger] tui::key_action(key) == Some(action),
        exists|i: int|
            0 <= i < 8 && (#[trigger] view::placed_all(area, v.connecting is Some, v.scanning)[i])
                .action == action && view::placed_all(area, v.connecting is Some, v.scanning)[i].x0
                < view::placed_all(area, v.connecting is Some, v.scanning)[i].x1,
{
    let (c, s) = (v.connecting is Some, v.scanning);
    let (key, i) = match action {
        Action::Connect => (Key::Char('c'), 0int),
        Action::Disconnect => (Key::Char('d'), 1),
        Action::Pair => (Key::Char('p'), 2),
        Action::Remove => (Key::Char('r'), 3),
        Action::ToggleTrust => (Key::Char('t'), 4),
        Action::ToggleScan => (Key::Char('s'), 5),
        Action::SetDefault => (Key::Char('f'), 6),
        Action::Quit => (Key::Char('q'), 7),
    };
    assert(tui::key_action(key) == Some(action));
    view::lemma_bar_grows(i, i, c, s);
    view::lemma_bar_grows(i + 1, 8, c, s);
    view::lemma_labels_are_not_empty(action, c, s);
    assert(view::placed_all(area, c, s)[i] == view::placed(i, area, c, s));
}

/// Drawing the list brings the selected row into view and leaves a selection that
/// the list has where it is; drawing it again changes nothing.
pub proof fn law_selection_is_in_view(v: AppView, area: Rect)
    requires
        area.width > 2,
        area.height > 2,
        v.devices.len() <= usize::MAX,
    ensures
        ({
            let w = view::listed(v, area);
            &&& w.list_state.selected is Some ==> w.list_state.offset
                <= w.list_state.selected->0 < w.list_state.offset + area.height - 2
            &&& w.list_state.selected is Some ==> w.list_state.selected->0 < v.devices.len()
            &&& settled(v) ==> w.list_state.selected == v.list_state.selected
            &&& view::listed(w, area) == w
        }),
{
}

/// A click on the row that shows the selected device leaves it selected, and one
/// on any other row in view selects the device that the list holds so many rows
/// further.
pub proof fn law_click_hits_what_is_drawn(v: AppView, area: Rect, col: u16, row: u16)
    requires
        area.width > 2,
        area.height > 2,
        v.devices.len() <= usize::MAX,
        v.list_state.selected is Some,
        v.devices.len() > 0,
        tui::inside(area, col, row),
        tui::button_at(v.buttons, col, row) is None,
    ensures
        ({
            let w = view::listed(v, area);
            let s = w.list_state.selected->0 as int;
            let there = area.y + 1 + (s - w.list_state.offset);
            let hit = s + (row - there);
            &&& area.y < there && there + 1 < area.y + area.height
            &&& row == there ==> tui::click(w, col, row).0 == w
            &&& 0 <= hit < v.devices.len() ==> tui::selected(tui::click(w, col, row).0) == Some(
                v.devices[hit],
            )
        }),
{
    law_selection_is_in_view(v, area);
}

/// A click on a row that is shown selects the device of that row.
pub proof fn law_click_selects_the_row(v: AppView, col: u16, row: u16)
    requires
        tui::button_at(v.buttons, col, row) is None,
        tui::inside(v.list_area, col, row),
        v.list_state.offset + (row - v.list_area.y - 1) < v.devices.len() <= usize::MAX,
    ensures
        tui::selected(tui::click(v, col, row).0) == Some(
            v.devices[v.list_state.offset + (row - v.list_area.y - 1)],
        ),
        tui::click(v, col, row).1 is None,
{
}

// ---- what the parts of the manager are for ----------------------------------
/// What is said of the manager is said of what it holds.
pub proof fn law_app_view(a: App)
    ensures
        a@.devices.len() == a.devices@.len(),
        forall|i: int| 0 <= i < a.devices@.len() ==> #[trigger] a@.devices[i] == a.devices@[i]@,
        a@.adapter == a.adapter@,
        a@.list_state == a.list_state,
        a@.default_mac is Some <==> a.default_mac is Some,
        a.default_mac is Some ==> a@.default_mac->0 == a.default_mac->0@,
        a@.scanning == a.scanning,
        a@.logs.len() == a.logs@.len(),
        forall|i: int| 0 <= i < a.logs@.len() ==> #[trigger] a@.logs[i] == a.logs@[i]@,
        a@.status == a.status@,
        a@.should_quit == a.should_quit,
        a@.connecting is Some <==> a.connecting is Some,
        a.connecting is Some ==> a@.connecting->0 == a.connecting->0@,
        a@.list_area == a.list_area,
        a@.buttons == a.buttons@,
{
}

/// What is said of an effect is said of what it holds.
pub proof fn law_effect_view(o: Option<Effect>, v: Seq<Effect>, i: int)
    ensures
        tui::opt_effect(o) is None <==> o is None,
        o is Some ==> tui::opt_effect(o) == Some(o->0@),
        o is Some ==> match o->0 {
            Effect::StartEngine(mac) => o->0@ == EffectView::StartEngine(mac@),
            Effect::StopEngine => o->0@ is StopEngine,
            Effect::Background(c) => o->0@ is Background && o->0@->Background_0.len() == c@.len()
                && forall|k: int|
                0 <= k < c@.len() ==> #[trigger] o->0@->Background_0[k] == c@[k]@,
            Effect::StartScan => o->0@ is StartScan,
            Effect::StopScan(c) => o->0@ == EffectView::StopScan(c@),
            Effect::SaveDefault(mac) => o->0@ == EffectView::SaveDefault(mac@),
            Effect::StopRefresh => o->0@ is StopRefresh,
        },
        tui::effect_views(v).len() == v.len(),
        0 <= i < v.len() ==> tui::effect_views(v)[i] == v[i]@,
{
}

/// What is said of a device or of news is said of what they hold.
pub proof fn law_other_views(d: Option<Device>, v: Seq<Progress>, i: int)
    ensures
        tui::opt_device(d) is None <==> d is None,
        d is Some ==> tui::opt_device(d) == Some(d->0@),
        tui::news_views(v).len() == v.len(),
        0 <= i < v.len() ==> tui::news_views(v)[i] == v[i]@,
{
}

/// The selected device is the one in the selected row, if the list has it.
pub proof fn law_the_selected_device(v: AppView, i: usize)
    ensures
        v.list_state.selected == Some(i) && i < v.devices.len() ==> tui::selected(v) == Some(
            v.devices[i as int],
        ) && tui::selected_address(v) == Some(v.devices[i as int].mac),
        v.list_state.selected == Some(i) && i >= v.devices.len() ==> tui::selected(v) is None,
        v.list_state.selected is None ==> tui::selected(v) is None,
        tui::selected(v) is None ==> tui::selected_address(v) is None,
        tui::select(v.list_state, Some(i)) == (ListState { selected: Some(i), ..v.list_state }),
        tui::select(v.list_state, None) == (ListState { selected: None, offset: 0 }),
{
}

/// What the actions on a device run, whatever else holds of the device: each its
/// own commands on that device, and nothing but the status changes. Without a
/// selected device none of them does anything.
pub proof fn law_actions_on_a_device(v: AppView, i: int)
    requires
        0 <= i < v.devices.len(),
        v.list_state.selected == Some(i as usize),
        i <= usize::MAX,
    ensures
        ({
            let mac = v.devices[i].mac;
            let word = if v.devices[i].trusted {
                "untrust"@
            } else {
                "trust"@
            };
            &&& tui::act(v, Action::Disconnect) == (
                AppView { status: "disconnecting "@ + mac, ..v },
                Some(EffectView::Background(seq![seq!["6"@, "bluetoothctl"@, "disconnect"@, mac]])),
            )
            &&& tui::act(v, Action::Pair) == (
                AppView { status: "pairing "@ + mac, ..v },
                Some(
                    EffectView::Background(
                        seq![
                            seq!["12"@, "bluetoothctl"@, "pair"@, mac],
                            seq!["3"@, "bluetoothctl"@, "trust"@, mac],
                        ],
                    ),
                ),
            )
            &&& tui::act(v, Action::Remove) == (
                AppView { status: "removing "@ + mac, ..v },
                Some(EffectView::Background(seq![seq!["6"@, "bluetoothctl"@, "remove"@, mac]])),
            )
            &&& tui::act(v, Action::ToggleTrust) == (
                AppView { status: word + seq![' '] + mac, ..v },
                Some(EffectView::Background(seq![seq!["3"@, "bluetoothctl"@, word, mac]])),
            )
            &&& tui::act(v, Action::SetDefault) == (v, Some(EffectView::SaveDefault(mac)))
        }),
{
    let mac = v.devices[i].mac;
    number::lemma_small_numbers();
    bt::law_commands(seq![], mac, "disconnect"@, 6, 0);
    bt::law_commands(seq![], mac, "pair"@, 12, 0);
    bt::law_commands(seq![], mac, "trust"@, 3, 0);
    bt::law_commands(seq![], mac, "untrust"@, 3, 0);
    bt::law_commands(seq![], mac, "remove"@, 6, 0);
    reveal_strlit(" ");
    assert(" "@ == seq![' ']);
}

/// Without a selected device no action on a device does anything, and an attempt
/// is not started.
pub proof fn law_nothing_selected(v: AppView, action: Action)
    requires
        tui::selected(v) is None,
        action != Action::ToggleScan,
        action != Action::Quit,
        action == Action::Connect ==> v.connecting is None,
    ensures
        tui::act(v, action) == (v, None::<EffectView>),
{
}

/// Only the action that is for it makes a device be forgotten.
pub proof fn law_only_remove_removes(v: AppView, action: Action, k: int)
    requires
        action != Action::Remove,
        tui::act(v, action).1 is Some,
        tui::act(v, action).1->0 is Background,
        0 <= k < tui::act(v, action).1->0->Background_0.len(),
    ensures
        tui::act(v, action).1->0->Background_0[k].len() == 4,
        tui::act(v, action).1->0->Background_0[k][2] != "remove"@,
{
    reveal_strlit("remove");
    reveal_strlit("disconnect");
    reveal_strlit("pair");
    reveal_strlit("trust");
    reveal_strlit("untrust");
    assert("remove"@.len() == 6 && "disconnect"@.len() == 10 && "pair"@.len() == 4 && "trust"@.len()
        == 5 && "untrust"@.len() == 7);
}

/// Starting an attempt: the device, what is said of it, and nothing else.
pub proof fn law_connect_starts(v: AppView, i: int)
    requires
        0 <= i < v.devices.len(),
        v.list_state.selected == Some(i as usize),
        i <= usize::MAX,
        v.connecting is None,
    ensures
        ({
            let mac = v.devices[i].mac;
            let w = tui::act(v, Action::Connect).0;
            &&& tui::act(v, Action::Connect).1 == Some(EffectView::StartEngine(mac))
            &&& w == (AppView {
                connecting: Some(mac),
                status: "forcing "@ + mac + " to connect…"@,
                logs: w.logs,
                ..v
            })
            &&& w.logs == tui::logged(v, "▶ aggressive connect → "@ + mac).logs
        }),
{
}

/// Starting and ending a scan, and leaving: what is run and what is said.
pub proof fn law_scan_and_quit(v: AppView)
    ensures
        !v.scanning ==> tui::act(v, Action::ToggleScan) == (
            AppView { scanning: true, status: "scanning…"@, ..v },
            Some(EffectView::StartScan),
        ),
        v.scanning ==> tui::act(v, Action::ToggleScan) == (
            AppView { scanning: false, status: "scan off"@, ..v },
            Some(EffectView::StopScan(seq!["3"@, "bluetoothctl"@, "scan"@, "off"@])),
        ),
        tui::act(v, Action::Quit) == (AppView { should_quit: true, ..v }, None::<EffectView>),
{
    number::lemma_small_numbers();
    assert(bt::bt_argv(seq!["scan"@, "off"@], 3) == seq!["3"@, "bluetoothctl"@, "scan"@, "off"@]);
}

/// What is said once the default has been written, or could not be.
pub proof fn law_default_is_told(v: AppView, mac: Seq<char>, e: Seq<char>)
    ensures
        tui::default_saved(v, mac, Some(e)) == (AppView {
            status: "could not save default: "@ + e,
            ..v
        }),
        ({
            let w = tui::default_saved(v, mac, None);
            &&& w == (AppView {
                default_mac: Some(mac),
                status: "★ default set → "@ + mac,
                logs: w.logs,
                ..v
            })
            &&& w.logs == tui::logged(
                v,
                "★ default device is now "@ + mac + " (btkick connects it directly)"@,
            ).logs
        }),
{
}

/// Each key does the one thing that it is for, and no other key does anything.
pub proof fn law_keys(v: AppView, c: char)
    ensures
        tui::on_key(v, Key::Up) == (tui::moved(v, -1), None::<EffectView>),
        tui::on_key(v, Key::Char('k')) == tui::on_key(v, Key::Up),
        tui::on_key(v, Key::Down) == (tui::moved(v, 1), None::<EffectView>),
        tui::on_key(v, Key::Char('j')) == tui::on_key(v, Key::Down),
        tui::on_key(v, Key::Enter) == tui::act(v, Action::Connect),
        tui::on_key(v, Key::Char('c')) == tui::act(v, Action::Connect),
        tui::on_key(v, Key::Char('d')) == tui::act(v, Action::Disconnect),
        tui::on_key(v, Key::Char('p')) == tui::act(v, Action::Pair),
        tui::on_key(v, Key::Char('r')) == tui::act(v, Action::Remove),
        tui::on_key(v, Key::Char('t')) == tui::act(v, Action::ToggleTrust),
        tui::on_key(v, Key::Char('s')) == tui::act(v, Action::ToggleScan),
        tui::on_key(v, Key::Char('f')) == tui::act(v, Action::SetDefault),
        tui::on_key(v, Key::Char('*')) == tui::act(v, Action::SetDefault),
        tui::on_key(v, Key::Char('q')) == tui::act(v, Action::Quit),
        tui::on_key(v, Key::Esc) == tui::act(v, Action::Quit),
        tui::on_key(v, Key::Other) == (v, None::<EffectView>),
        c != 'k' && c != 'j' && c != 'c' && c != 'd' && c != 'p' && c != 'r' && c != 't' && c != 's'
            && c != 'f' && c != '*' && c != 'q' ==> tui::on_key(v, Key::Char(c)) == (
            v,
            None::<EffectView>,
        ),
{
}

/// Keys count where they are pressed, the wheel moves the selection, the left
/// button clicks, and nothing else does anything.
pub proof fn law_inputs(v: AppView, key: Key, col: u16, row: u16)
    ensures
        tui::on_input(v, Input::Key { key, press: true }) == tui::on_key(v, key),
        tui::on_input(v, Input::Key { key, press: false }) == (v, None::<EffectView>),
        tui::on_input(v, Input::Other) == (v, None::<EffectView>),
        tui::on_input(v, Input::Mouse { mouse: Mouse::LeftDown, col, row }) == tui::click(
            v,
            col,
            row,
        ),
        tui::on_input(v, Input::Mouse { mouse: Mouse::ScrollDown, col, row }) == tui::on_key(
            v,
            Key::Down,
        ),
        tui::on_input(v, Input::Mouse { mouse: Mouse::ScrollUp, col, row }) == tui::on_key(
            v,
            Key::Up,
        ),
        tui::on_input(v, Input::Mouse { mouse: Mouse::Other, col, row }) == (v, None::<EffectView>),
{
}

/// The selection moves by so many rows in a ring, from the first row where none is
/// selected, and nothing else changes.
pub proof fn law_selection_moves(v: AppView, delta: int)
    requires
        v.devices.len() <= usize::MAX,
    ensures
        v.devices.len() == 0 ==> tui::moved(v, delta) == v,
        v.devices.len() > 0 ==> {
            let w = tui::moved(v, delta);
            let from: int = if v.list_state.selected is Some {
                v.list_state.selected->0 as int
            } else {
                0
            };
            &&& w.list_state.selected is Some
            &&& w.list_state.selected->0 < v.devices.len()
            &&& exists|turns: int|
                from + delta == #[trigger] (turns * v.devices.len()) + w.list_state.selected->0
            &&& w == (AppView {
                list_state: ListState { selected: w.list_state.selected, ..v.list_state },
                ..v
            })
        },
{
    if v.devices.len() > 0 {
        let n = v.devices.len() as int;
        let from: int = if v.list_state.selected is Some {
            v.list_state.selected->0 as int
        } else {
            0
        };
        let x = from + delta;
        vstd::arithmetic::div_mod::lemma_fundamental_div_mod(x, n);
        vstd::arithmetic::div_mod::lemma_mod_bound(x, n);
        vstd::arithmetic::mul::lemma_mul_is_commutative(n, x / n);
        assert(x == (x / n) * v.devices.len() + x % n);
    }
}

/// A selection that the list does not have goes to its last row.
pub proof fn law_lost_selection(v: AppView)
    requires
        v.devices.len() <= usize::MAX,
    ensures
        v.devices.len() == 0 ==> tui::clamped(v) == (AppView {
            list_state: ListState { selected: None, offset: 0 },
            ..v
        }),
        v.devices.len() > 0 && !settled(v) ==> tui::clamped(v) == (AppView {
            list_state: ListState {
                selected: Some((v.devices.len() - 1) as usize),
                ..v.list_state
            },
            ..v
        }),
{
}

/// A line that is added drops none before the log has three hundred, and then the
/// oldest; nothing but the log changes.
pub proof fn law_log_grows(v: AppView, line: Seq<char>)
    ensures
        tui::logged(v, line) == (AppView { logs: tui::logged(v, line).logs, ..v }),
        v.logs.len() < 300 ==> tui::logged(v, line).logs == v.logs.push(line),
        v.logs.len() == 300 ==> tui::logged(v, line).logs == v.logs.skip(1).push(line),
        v.logs.len() >= 300 ==> tui::logged(v, line).logs.len() == 300,
{
    if v.logs.len() == 300 {
        assert(tui::logged(v, line).logs == v.logs.skip(1).push(line));
    }
}

/// What each piece of news does: its line goes to the log, and the last word to the
/// status too.
pub proof fn law_news_are_told(v: AppView, m: Seq<char>)
    ensures
        tui::heard(v, ProgressView::Log(m)) == (AppView { logs: v.logs.push(m), ..v }),
        tui::heard(v, ProgressView::Connected(m)) == (AppView {
            logs: v.logs.push("✔ connected in "@ + m + seq!['s']),
            status: "connected in "@ + m + seq!['s'],
            ..v
        }),
        tui::heard(v, ProgressView::GaveUp) == (AppView {
            logs: v.logs.push("✘ canceled"@),
            status: "canceled"@,
            ..v
        }),
{
    reveal_strlit("s");
    assert("s"@ == seq!['s']);
}

/// News are taken one after the other: hearing more after some is hearing all.
pub proof fn law_news_add_up(v: AppView, some: Seq<ProgressView>, more: Seq<ProgressView>)
    ensures
        tui::heard_all(v, some + more) == tui::heard_all(tui::heard_all(v, some), more),
        tui::heard_all(v, Seq::<ProgressView>::empty()) == v,
        forall|p: ProgressView| #[trigger] tui::heard_all(v, seq![p]) == tui::heard(v, p),
    decreases more.len(),
{
    assert forall|p: ProgressView| #[trigger] tui::heard_all(v, seq![p]) == tui::heard(v, p) by {
        assert(seq![p].drop_last() == Seq::<ProgressView>::empty());
        assert(tui::heard_all(v, Seq::<ProgressView>::empty()) == v);
    }
    if more.len() == 0 {
        assert(some + more == some);
    } else {
        law_news_add_up(v, some, more.drop_last());
        assert((some + more).drop_last() == some + more.drop_last());
        assert((some + more).last() == more.last());
    }
}

/// An attempt is over exactly where it has said that the device is up, or that it
/// gave up. Its news go to the log, which keeps its size, and without an attempt
/// there are none.
pub proof fn law_news_of_an_attempt(v: AppView, news: Seq<ProgressView>)
    ensures
        tui::is_final(news) <==> exists|i: int|
            0 <= i < news.len() && (#[trigger] news[i] is Connected || news[i] is GaveUp),
        v.connecting is None ==> tui::drained(v, news) == v,
        v.connecting is Some ==> {
            let all = tui::heard_all(v, news);
            let w = tui::drained(v, news);
            &&& w == (AppView { logs: w.logs, connecting: w.connecting, ..all })
            &&& w.connecting == (if tui::is_final(news) {
                None
            } else {
                v.connecting
            })
            &&& all.logs.len() <= 300 ==> w.logs == all.logs
            &&& all.logs.len() > 300 ==> w.logs == all.logs.skip(all.logs.len() - 300)
        },
{
    if tui::is_final(news) {
        let i = choose|i: int| 0 <= i < news.len() && !(#[trigger] news[i] is Log);
        assert(news[i] is Connected || news[i] is GaveUp);
    }
}

/// The manager opens on the first device, with nothing going on.
pub proof fn law_opening_screen(
    devices: Seq<DeviceView>,
    adapter: AdapterView,
    default_mac: Option<Seq<char>>,
)
    ensures
        ({
            let v = tui::opened(devices, adapter, default_mac);
            &&& v.devices == devices && v.adapter == adapter && v.default_mac == default_mac
            &&& devices.len() > 0 ==> v.list_state.selected == Some(0usize)
            &&& devices.len() == 0 ==> v.list_state.selected is None
            &&& v.list_state.offset == 0
            &&& !v.scanning && !v.should_quit && v.connecting is None
            &&& v.logs == seq!["welcome to btkick — Bluetooth manager"@]
            &&& v.status.len() == 0 && v.buttons.len() == 0
            &&& v.list_area.width == 0 && v.list_area.height == 0
        }),
{
}

/// What is left to do on leaving: the refresh is stopped in any case, the attempt
/// where one is under way, and the scan where one runs, in this order.
pub proof fn law_leaving(v: AppView, scan_runs: bool)
    ensures
        ({
            let all = tui::left(v, scan_runs);
            let attempt: int = if v.connecting is Some {
                1
            } else {
                0
            };
            &&& all.len() == 1 + attempt + (if scan_runs {
                1int
            } else {
                0
            })
            &&& all[0] is StopRefresh
            &&& v.connecting is Some ==> all[1] is StopEngine
            &&& scan_runs ==> all[1 + attempt] == EffectView::StopScan(
                seq!["3"@, "bluetoothctl"@, "scan"@, "off"@],
            )
        }),
{
    number::lemma_small_numbers();
    assert(bt::bt_argv(seq!["scan"@, "off"@], 3) == seq!["3"@, "bluetoothctl"@, "scan"@, "off"@]);
}

/// A click goes to the first button that covers the cell: one row, from its first
/// column up to but not including its end. Where there is none it goes to the list.
pub proof fn law_buttons_are_hit(buttons: Seq<tui::Button>, k: int, col: u16, row: u16)
    requires
        0 <= k <= buttons.len(),
        forall|j: int|
            0 <= j < k ==> !(row == (#[trigger] buttons[j]).y && buttons[j].x0 <= col && col
                < buttons[j].x1),
        k < buttons.len() ==> row == buttons[k].y && buttons[k].x0 <= col && col < buttons[k].x1,
    ensures
        k < buttons.len() ==> tui::button_at(buttons, col, row) == Some(buttons[k].action),
        k == buttons.len() ==> tui::button_at(buttons, col, row) is None,
    decreases k,
{
    if k > 0 {
        let rest = buttons.skip(1);
        assert forall|j: int| 0 <= j < k - 1 implies !(row == (#[trigger] rest[j]).y && rest[j].x0
            <= col && col < rest[j].x1) by {
            assert(rest[j] == buttons[j + 1]);
        }
        if k < buttons.len() {
            assert(rest[k - 1] == buttons[k]);
        }
        assert(!tui::covers(buttons[0], col, row));
        law_buttons_are_hit(rest, k - 1, col, row);
    }
}

/// A click on a button does what the button is for, whatever else holds.
pub proof fn law_button_clicks_act(v: AppView, col: u16, row: u16, action: Action)
    requires
        tui::button_at(v.buttons, col, row) == Some(action),
    ensures
        tui::click(v, col, row) == tui::act(v, action),
{
}

/// A click that hits neither a button nor a row of the list does nothing. The rows
/// lie inside the frame of the list.
pub proof fn law_other_clicks_do_nothing(v: AppView, col: u16, row: u16)
    requires
        tui::button_at(v.buttons, col, row) is None,
        col <= v.list_area.x || row <= v.list_area.y || col + 1 >= v.list_area.x
            + v.list_area.width || row + 1 >= v.list_area.y + v.list_area.height
            || v.list_state.offset + (row - v.list_area.y - 1) >= v.devices.len(),
    ensures
        tui::click(v, col, row) == (v, None::<EffectView>),
{
}

/// A click on a row of the list changes the selection and nothing else, and it does
/// so everywhere inside the frame.
pub proof fn law_row_clicks_only_select(v: AppView, col: u16, row: u16)
    requires
        tui::button_at(v.buttons, col, row) is None,
        v.list_area.x < col,
        v.list_area.y < row,
        col + 1 < v.list_area.x + v.list_area.width,
        row + 1 < v.list_area.y + v.list_area.height,
        v.list_state.offset + (row - v.list_area.y - 1) < v.devices.len() <= usize::MAX,
    ensures
        tui::click(v, col, row) == (
            AppView {
                list_state: ListState {
                    selected: Some((v.list_state.offset + (row - v.list_area.y - 1)) as usize),
                    ..v.list_state
                },
                ..v
            },
            None::<EffectView>,
        ),
{
}

} // verus!
