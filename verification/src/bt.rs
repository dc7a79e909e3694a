//! What `bluetoothctl` is asked and what its answers mean.

use crate::{number, text};
use vstd::prelude::*;

verus! {

// ---- commands ---------------------------------------------------------------
/// One run of `bluetoothctl` under coreutils `timeout`.
pub struct Command {
    /// The arguments of `timeout`.
    pub argv: Vec<String>,
}

impl View for Command {
    type V = Seq<Seq<char>>;

    open spec fn view(&self) -> Seq<Seq<char>> {
        text::texts(self.argv@)
    }
}

impl Clone for Command {
    fn clone(&self) -> (r: Self)
        ensures
            r@ == self@,
    {
        let mut argv: Vec<String> = Vec::new();
        let mut i: usize = 0;
        while i < self.argv.len()
            invariant
                i <= self.argv@.len(),
                argv@.len() == i,
                forall|j: int| 0 <= j < i ==> #[trigger] argv@[j]@ == self.argv@[j]@,
            decreases self.argv@.len() - i,
        {
            argv.push(self.argv[i].clone());
            i += 1;
        }
        let r = Command { argv };
        assert(r@ == self@);
        r
    }
}

/// The arguments of `timeout` that run `bluetoothctl` with `args`.
pub open spec fn bt_argv(args: Seq<Seq<char>>, timeout_s: nat) -> Seq<Seq<char>> {
    seq![number::decimal(timeout_s), "bluetoothctl"@] + args
}

/// `bluetoothctl <args>` under a timeout.
pub fn bt(args: &[&str], timeout_s: u32) -> (c: Command)
    ensures
        c@ == bt_argv(text::slices(args@), timeout_s as nat),
{
    let mut argv: Vec<String> = Vec::new();
    argv.push(number::natural(timeout_s as u64));
    argv.push("bluetoothctl".to_owned());
    let mut i: usize = 0;
    while i < args.len()
        invariant
            i <= args@.len(),
            argv@.len() == i + 2,
            argv@[0]@ == number::decimal(timeout_s as nat),
            argv@[1]@ == "bluetoothctl"@,
            forall|j: int| 0 <= j < i ==> #[trigger] argv@[j + 2]@ == args@[j]@,
        decreases args@.len() - i,
    {
        argv.push(args[i].to_owned());
        i += 1;
    }
    let c = Command { argv };
    proof {
        let want = bt_argv(text::slices(args@), timeout_s as nat);
        assert forall|k: int| 0 <= k < want.len() implies c@[k] == want[k] by {
            if k >= 2 {
                assert(argv@[(k - 2) + 2]@ == args@[k - 2]@);
            }
        }
        assert(c@ == want);
    }
    c
}

/// The command `word mac`.
pub open spec fn on_device(word: Seq<char>, mac: Seq<char>, timeout_s: nat) -> Seq<Seq<char>> {
    bt_argv(seq![word, mac], timeout_s)
}

/// The command that asks about one device.
pub fn info(mac: &str) -> (c: Command)
    ensures
        c@ == on_device("info"@, mac@, 4),
{
    let c = bt(&["info", mac], 4);
    assert(c@ == on_device("info"@, mac@, 4));
    c
}

/// The command that lists the known devices.
pub open spec fn devices_argv() -> Seq<Seq<char>> {
    bt_argv(seq!["devices"@], 4)
}

/// The command that lists the known devices.
pub fn devices() -> (c: Command)
    ensures
        c@ == devices_argv(),
{
    let c = bt(&["devices"], 4);
    assert(c@ == devices_argv());
    c
}

/// The command that asks about the adapter.
pub fn show() -> (c: Command)
    ensures
        c@ == bt_argv(seq!["show"@], 4),
{
    let c = bt(&["show"], 4);
    assert(c@ == bt_argv(seq!["show"@], 4));
    c
}

/// Ends the link to a device.
pub fn disconnect(mac: &str) -> (c: Command)
    ensures
        c@ == on_device("disconnect"@, mac@, 6),
{
    let c = bt(&["disconnect", mac], 6);
    assert(c@ == on_device("disconnect"@, mac@, 6));
    c
}

/// Pairs with a device and then trusts it.
pub fn pair(mac: &str) -> (r: (Command, Command))
    ensures
        r.0@ == on_device("pair"@, mac@, 12),
        r.1@ == on_device("trust"@, mac@, 3),
{
    let first = bt(&["pair", mac], 12);
    let second = bt(&["trust", mac], 3);
    assert(first@ == on_device("pair"@, mac@, 12));
    assert(second@ == on_device("trust"@, mac@, 3));
    (first, second)
}

/// Forgets a device.
pub fn remove(mac: &str) -> (c: Command)
    ensures
        c@ == on_device("remove"@, mac@, 6),
{
    let c = bt(&["remove", mac], 6);
    assert(c@ == on_device("remove"@, mac@, 6));
    c
}

/// The word that turns trust on or off.
pub open spec fn trust_word(on: bool) -> Seq<char> {
    if on {
        "trust"@
    } else {
        "untrust"@
    }
}

/// Trusts a device, or takes the trust back.
pub fn set_trust(mac: &str, on: bool) -> (c: Command)
    ensures
        c@ == on_device(trust_word(on), mac@, 3),
{
    let word: &str = if on {
        "trust"
    } else {
        "untrust"
    };
    let c = bt(&[word, mac], 3);
    assert(c@ == on_device(trust_word(on), mac@, 3));
    c
}

// ---- devices ----------------------------------------------------------------
/// A device that the adapter knows.
pub struct Device {
    pub mac: String,
    pub name: String,
    pub paired: bool,
    pub bonded: bool,
    pub connected: bool,
    pub trusted: bool,
    pub battery: Option<u8>,
    pub rssi: Option<i32>,
    pub icon: String,
}

/// A device, its texts as sequences of characters.
#[verifier::ext_equal]
pub struct DeviceView {
    pub mac: Seq<char>,
    pub name: Seq<char>,
    pub paired: bool,
    pub bonded: bool,
    pub connected: bool,
    pub trusted: bool,
    pub battery: Option<u8>,
    pub rssi: Option<i32>,
    pub icon: Seq<char>,
}

impl View for Device {
    type V = DeviceView;

    open spec fn view(&self) -> DeviceView {
        DeviceView {
            mac: self.mac@,
            name: self.name@,
            paired: self.paired,
            bonded: self.bonded,
            connected: self.connected,
            trusted: self.trusted,
            battery: self.battery,
            rssi: self.rssi,
            icon: self.icon@,
        }
    }
}

/// The views of a vector of devices.
pub open spec fn device_views(v: Seq<Device>) -> Seq<DeviceView> {
    Seq::new(v.len(), |i: int| v[i]@)
}

/// A device of which only its address and its name are known.
pub open spec fn bare_device(mac: Seq<char>, name: Seq<char>) -> DeviceView {
    DeviceView {
        mac,
        name,
        paired: false,
        bonded: false,
        connected: false,
        trusted: false,
        battery: None,
        rssi: None,
        icon: seq![],
    }
}

impl Clone for Device {
    fn clone(&self) -> (r: Self)
        ensures
            r == *self,
    {
        Device {
            mac: self.mac.clone(),
            name: self.name.clone(),
            paired: self.paired,
            bonded: self.bonded,
            connected: self.connected,
            trusted: self.trusted,
            battery: self.battery,
            rssi: self.rssi,
            icon: self.icon.clone(),
        }
    }
}

impl Default for Device {
    fn default() -> (r: Self)
        ensures
            r@ == bare_device(seq![], seq![]),
    {
        Device {
            mac: String::new(),
            name: String::new(),
            paired: false,
            bonded: false,
            connected: false,
            trusted: false,
            battery: None,
            rssi: None,
            icon: String::new(),
        }
    }
}

/// Whether one line of `bluetoothctl info` says that the link is up.
pub open spec fn link_line(line: Seq<char>) -> bool {
    "Connected:"@.is_prefix_of(text::trimmed(line)) && text::occurs(line, "yes"@)
}

/// Whether the output of `bluetoothctl info` says that the link is up.
pub open spec fn link_up(out: Seq<char>) -> bool {
    exists|i: int|
        0 <= i < text::line_seq(out).len() && link_line(#[trigger] text::line_seq(out)[i])
}

/// Whether the output of `bluetoothctl info` says that the device is connected.
pub fn is_connected(out: &str) -> (r: bool)
    ensures
        r == link_up(out@),
{
    let ls: Vec<String> = text::lines(out);
    let ghost want = text::line_seq(out@);
    let mut i: usize = 0;
    while i < ls.len()
        invariant
            i <= ls@.len(),
            want == text::line_seq(out@),
            text::texts(ls@) == want,
            forall|j: int| 0 <= j < i ==> !link_line(#[trigger] want[j]),
        decreases ls@.len() - i,
    {
        let l: &str = ls[i].as_str();
        assert(want[i as int] == text::texts(ls@)[i as int]);
        if text::starts_with(text::trim(l), "Connected:") && text::contains(l, "yes") {
            assert(link_line(want[i as int]));
            return true;
        }
        i += 1;
    }
    false
}

/// The address and the name on one line of `bluetoothctl devices`.
pub open spec fn device_entry(line: Seq<char>) -> Option<(Seq<char>, Seq<char>)> {
    match text::after_prefix(text::trimmed(line), "Device "@) {
        Some(rest) => text::halves(rest, ' '),
        None => None,
    }
}

/// The entries of the given lines, in order.
pub open spec fn entries(ls: Seq<Seq<char>>) -> Seq<(Seq<char>, Seq<char>)>
    decreases ls.len(),
{
    if ls.len() == 0 {
        seq![]
    } else {
        match device_entry(ls.last()) {
            Some(e) => entries(ls.drop_last()).push(e),
            None => entries(ls.drop_last()),
        }
    }
}

/// The views of a vector of pairs of strings.
pub open spec fn pair_views(v: Seq<(String, String)>) -> Seq<(Seq<char>, Seq<char>)> {
    Seq::new(v.len(), |i: int| (v[i].0@, v[i].1@))
}

/// The (mac, name) pairs in the output of `bluetoothctl devices`.
pub fn device_macs(out: &str) -> (r: Vec<(String, String)>)
    ensures
        pair_views(r@) == entries(text::line_seq(out@)),
{
    let ls: Vec<String> = text::lines(out);
    let ghost want = text::line_seq(out@);
    let mut r: Vec<(String, String)> = Vec::new();
    let mut i: usize = 0;
    assert(pair_views(r@) == entries(want.take(0)));
    while i < ls.len()
        invariant
            i <= ls@.len(),
            text::texts(ls@) == want,
            pair_views(r@) == entries(want.take(i as int)),
        decreases ls@.len() - i,
    {
        let ghost before = r@;
        let l: &str = text::trim(ls[i].as_str());
        proof {
            assert(want[i as int] == text::texts(ls@)[i as int]);
            assert(want.take(i + 1).drop_last() == want.take(i as int));
            assert(want.take(i + 1).last() == want[i as int]);
        }
        if let Some(rest) = text::strip_prefix(l, "Device ") {
            if let Some((mac, name)) = text::split_once(rest, ' ') {
                r.push((mac.to_owned(), name.to_owned()));
                assert(pair_views(r@) == pair_views(before).push((mac@, name@)));
            }
        }
        i += 1;
    }
    assert(want.take(want.len() as int) == want);
    r
}

/// The signal strength on an `RSSI:` line: its first word, if that is a number.
pub open spec fn rssi_value(v: Seq<char>) -> Option<i32> {
    match text::word(v) {
        Some(w) => number::spelled_i32(w),
        None => None,
    }
}

/// The charge on a `Battery Percentage:` line: the number in brackets, as in
/// `0x61 (97)`.
pub open spec fn battery_value(v: Seq<char>) -> Option<u8> {
    match text::halves(v, '(') {
        Some((_, rest)) => number::spelled_u8(text::without_trailing(rest, ')')),
        None => None,
    }
}

/// What a line of `bluetoothctl info` adds to what is known of a device.
pub open spec fn device_line(d: DeviceView, line: Seq<char>) -> DeviceView {
    let t = text::trimmed(line);
    if let Some(v) = text::after_prefix(t, "Name: "@) {
        DeviceView { name: v, ..d }
    } else if let Some(v) = text::after_prefix(t, "Icon: "@) {
        DeviceView { icon: v, ..d }
    } else if let Some(v) = text::after_prefix(t, "Paired: "@) {
        DeviceView { paired: v == "yes"@, ..d }
    } else if let Some(v) = text::after_prefix(t, "Bonded: "@) {
        DeviceView { bonded: v == "yes"@, ..d }
    } else if let Some(v) = text::after_prefix(t, "Connected: "@) {
        DeviceView { connected: v == "yes"@, ..d }
    } else if let Some(v) = text::after_prefix(t, "Trusted: "@) {
        DeviceView { trusted: v == "yes"@, ..d }
    } else if let Some(v) = text::after_prefix(t, "RSSI: "@) {
        DeviceView { rssi: rssi_value(v), ..d }
    } else if let Some(v) = text::after_prefix(t, "Battery Percentage: "@) {
        DeviceView { battery: battery_value(v), ..d }
    } else {
        d
    }
}

/// What the given lines add to what is known of a device.
pub open spec fn device_lines(d: DeviceView, ls: Seq<Seq<char>>) -> DeviceView
    decreases ls.len(),
{
    if ls.len() == 0 {
        d
    } else {
        device_line(device_lines(d, ls.drop_last()), ls.last())
    }
}

/// The device that the output of `bluetoothctl info` describes.
pub open spec fn described(mac: Seq<char>, name: Seq<char>, out: Seq<char>) -> DeviceView {
    device_lines(bare_device(mac, name), text::line_seq(out))
}

/// Takes in one line of `bluetoothctl info`.
fn read_device_line(d: &mut Device, line: &str)
    ensures
        final(d)@ == device_line(old(d)@, line@),
{
    let t: &str = text::trim(line);
    if let Some(v) = text::strip_prefix(t, "Name: ") {
        d.name = v.to_owned();
    } else if let Some(v) = text::strip_prefix(t, "Icon: ") {
        d.icon = v.to_owned();
    } else if let Some(v) = text::strip_prefix(t, "Paired: ") {
        d.paired = text::same(v, "yes");
    } else if let Some(v) = text::strip_prefix(t, "Bonded: ") {
        d.bonded = text::same(v, "yes");
    } else if let Some(v) = text::strip_prefix(t, "Connected: ") {
        d.connected = text::same(v, "yes");
    } else if let Some(v) = text::strip_prefix(t, "Trusted: ") {
        d.trusted = text::same(v, "yes");
    } else if let Some(v) = text::strip_prefix(t, "RSSI: ") {
        d.rssi = match text::first_word(v) {
            Some(w) => number::parse_i32(w),
            None => None,
        };
    } else if let Some(v) = text::strip_prefix(t, "Battery Percentage: ") {
        d.battery = match text::split_once(v, '(') {
            Some((_, rest)) => number::parse_u8(text::trim_end_matches(rest, ')')),
            None => None,
        };
    }
}

/// The device that the output of `bluetoothctl info` describes.
pub fn device_info(mac: &str, fallback_name: &str, out: &str) -> (d: Device)
    ensures
        d@ == described(mac@, fallback_name@, out@),
{
    let ls: Vec<String> = text::lines(out);
    let ghost want = text::line_seq(out@);
    let mut d: Device = Device::default();
    d.mac = mac.to_owned();
    d.name = fallback_name.to_owned();
    let ghost first = bare_device(mac@, fallback_name@);
    let mut i: usize = 0;
    assert(want.take(0).len() == 0);
    while i < ls.len()
        invariant
            i <= ls@.len(),
            text::texts(ls@) == want,
            d@ == device_lines(first, want.take(i as int)),
        decreases ls@.len() - i,
    {
        proof {
            assert(want[i as int] == text::texts(ls@)[i as int]);
            assert(want.take(i + 1).drop_last() == want.take(i as int));
            assert(want.take(i + 1).last() == want[i as int]);
        }
        read_device_line(&mut d, ls[i].as_str());
        i += 1;
    }
    assert(want.take(want.len() as int) == want);
    d
}

/// What is read about a device never changes its address, and its name only
/// where a line gives one.
pub proof fn law_device_keeps_its_address(mac: Seq<char>, name: Seq<char>, out: Seq<char>)
    ensures
        described(mac, name, out).mac == mac,
        (forall|i: int|
            0 <= i < text::line_seq(out).len() ==> text::after_prefix(
                text::trimmed(#[trigger] text::line_seq(out)[i]),
                "Name: "@,
            ) is None) ==> described(mac, name, out).name == name,
{
    lemma_lines_keep(bare_device(mac, name), text::line_seq(out));
}

proof fn lemma_lines_keep(d: DeviceView, ls: Seq<Seq<char>>)
    ensures
        device_lines(d, ls).mac == d.mac,
        (forall|i: int|
            0 <= i < ls.len() ==> text::after_prefix(
                text::trimmed(#[trigger] ls[i]),
                "Name: "@,
            ) is None) ==> device_lines(d, ls).name == d.name,
    decreases ls.len(),
{
    if ls.len() > 0 {
        let before = ls.drop_last();
        lemma_lines_keep(d, before);
        if forall|i: int|
            0 <= i < ls.len() ==> text::after_prefix(
                text::trimmed(#[trigger] ls[i]),
                "Name: "@,
            ) is None {
            assert forall|i: int| 0 <= i < before.len() implies text::after_prefix(
                text::trimmed(#[trigger] before[i]),
                "Name: "@,
            ) is None by {
                assert(before[i] == ls[i]);
            }
            assert(ls.last() == ls[ls.len() - 1]);
        }
    }
}

/// A device that is listed as connected is one whose link is up.
pub proof fn law_listed_as_connected_is_up(mac: Seq<char>, name: Seq<char>, out: Seq<char>)
    ensures
        described(mac, name, out).connected ==> link_up(out),
{
    lemma_connected_line(bare_device(mac, name), text::line_seq(out));
}

proof fn lemma_connected_line(d: DeviceView, ls: Seq<Seq<char>>)
    requires
        !d.connected,
    ensures
        device_lines(d, ls).connected ==> exists|i: int|
            0 <= i < ls.len() && link_line(#[trigger] ls[i]),
    decreases ls.len(),
{
    if ls.len() > 0 && device_lines(d, ls).connected {
        let before = ls.drop_last();
        lemma_connected_line(d, before);
        if device_lines(d, before).connected {
            let i = choose|i: int| 0 <= i < before.len() && link_line(#[trigger] before[i]);
            assert(link_line(ls[i]));
        } else {
            let line = ls[ls.len() - 1];
            lemma_device_line(device_lines(d, before), line);
            lemma_yes_line(line);
        }
    }
}

proof fn lemma_yes_line(line: Seq<char>)
    requires
        text::trimmed(line) == "Connected: yes"@,
    ensures
        link_line(line),
{
    let t = text::trimmed(line);
    reveal_strlit("Connected: yes");
    reveal_strlit("Connected:");
    reveal_strlit("yes");
    assert("Connected:"@ == t.subrange(0, 10));
    let (a, b) = text::lemma_where_trimmed(line);
    assert("Connected: yes"@.len() == 14);
    assert(t.len() == b - a);
    assert(line.subrange(a + 11, a + 11 + "yes"@.len()) == t.subrange(11, 14));
    assert(t.subrange(11, 14) == "yes"@);
    text::law_occurs(line, "yes"@);
}

// ---- the adapter ------------------------------------------------------------
/// The adapter itself.
pub struct Adapter {
    pub mac: String,
    pub name: String,
    pub powered: bool,
    pub discoverable: bool,
    pub pairable: bool,
    pub discovering: bool,
}

/// The adapter, its texts as sequences of characters.
#[verifier::ext_equal]
pub struct AdapterView {
    pub mac: Seq<char>,
    pub name: Seq<char>,
    pub powered: bool,
    pub discoverable: bool,
    pub pairable: bool,
    pub discovering: bool,
}

impl View for Adapter {
    type V = AdapterView;

    open spec fn view(&self) -> AdapterView {
        AdapterView {
            mac: self.mac@,
            name: self.name@,
            powered: self.powered,
            discoverable: self.discoverable,
            pairable: self.pairable,
            discovering: self.discovering,
        }
    }
}

impl Clone for Adapter {
    fn clone(&self) -> (r: Self)
        ensures
            r == *self,
    {
        Adapter {
            mac: self.mac.clone(),
            name: self.name.clone(),
            powered: self.powered,
            discoverable: self.discoverable,
            pairable: self.pairable,
            discovering: self.discovering,
        }
    }
}

/// An adapter of which nothing is known.
pub open spec fn no_adapter() -> AdapterView {
    AdapterView {
        mac: seq![],
        name: seq![],
        powered: false,
        discoverable: false,
        pairable: false,
        discovering: false,
    }
}

impl Default for Adapter {
    fn default() -> (r: Self)
        ensures
            r@ == no_adapter(),
    {
        Adapter {
            mac: String::new(),
            name: String::new(),
            powered: false,
            discoverable: false,
            pairable: false,
            discovering: false,
        }
    }
}

/// What a line of `bluetoothctl show` adds to what is known of the adapter.
pub open spec fn adapter_line(a: AdapterView, line: Seq<char>) -> AdapterView {
    let t = text::trimmed(line);
    if let Some(v) = text::after_prefix(t, "Controller "@) {
        AdapterView {
            mac: match text::word(v) {
                Some(w) => w,
                None => seq![],
            },
            ..a
        }
    } else if let Some(v) = text::after_prefix(t, "Name: "@) {
        AdapterView { name: v, ..a }
    } else if let Some(v) = text::after_prefix(t, "Powered: "@) {
        AdapterView { powered: "yes"@.is_prefix_of(v), ..a }
    } else if let Some(v) = text::after_prefix(t, "Discoverable: "@) {
        AdapterView { discoverable: "yes"@.is_prefix_of(v), ..a }
    } else if let Some(v) = text::after_prefix(t, "Pairable: "@) {
        AdapterView { pairable: "yes"@.is_prefix_of(v), ..a }
    } else if let Some(v) = text::after_prefix(t, "Discovering: "@) {
        AdapterView { discovering: "yes"@.is_prefix_of(v), ..a }
    } else {
        a
    }
}

/// What the given lines add to what is known of the adapter.
pub open spec fn adapter_lines(a: AdapterView, ls: Seq<Seq<char>>) -> AdapterView
    decreases ls.len(),
{
    if ls.len() == 0 {
        a
    } else {
        adapter_line(adapter_lines(a, ls.drop_last()), ls.last())
    }
}

/// Takes in one line of `bluetoothctl show`.
fn read_adapter_line(a: &mut Adapter, line: &str)
    ensures
        final(a)@ == adapter_line(old(a)@, line@),
{
    let t: &str = text::trim(line);
    if let Some(v) = text::strip_prefix(t, "Controller ") {
        a.mac = match text::first_word(v) {
            Some(w) => w.to_owned(),
            None => String::new(),
        };
    } else if let Some(v) = text::strip_prefix(t, "Name: ") {
        a.name = v.to_owned();
    } else if let Some(v) = text::strip_prefix(t, "Powered: ") {
        a.powered = text::starts_with(v, "yes");
    } else if let Some(v) = text::strip_prefix(t, "Discoverable: ") {
        a.discoverable = text::starts_with(v, "yes");
    } else if let Some(v) = text::strip_prefix(t, "Pairable: ") {
        a.pairable = text::starts_with(v, "yes");
    } else if let Some(v) = text::strip_prefix(t, "Discovering: ") {
        a.discovering = text::starts_with(v, "yes");
    }
}

/// The adapter that the output of `bluetoothctl show` describes.
pub fn adapter(out: &str) -> (a: Adapter)
    ensures
        a@ == adapter_lines(no_adapter(), text::line_seq(out@)),
{
    let ls: Vec<String> = text::lines(out);
    let ghost want = text::line_seq(out@);
    let mut a: Adapter = Adapter::default();
    let mut i: usize = 0;
    assert(want.take(0).len() == 0);
    while i < ls.len()
        invariant
            i <= ls@.len(),
            text::texts(ls@) == want,
            a@ == adapter_lines(no_adapter(), want.take(i as int)),
        decreases ls@.len() - i,
    {
        proof {
            assert(want[i as int] == text::texts(ls@)[i as int]);
            assert(want.take(i + 1).drop_last() == want.take(i as int));
            assert(want.take(i + 1).last() == want[i as int]);
        }
        read_adapter_line(&mut a, ls[i].as_str());
        i += 1;
    }
    assert(want.take(want.len() as int) == want);
    a
}

// ---- what these operations are for ------------------------------------------
/// A command is `timeout` with the seconds, `bluetoothctl` and its arguments, each
/// in its place.
pub proof fn law_commands(args: Seq<Seq<char>>, mac: Seq<char>, word: Seq<char>, t: nat, i: int)
    ensures
        bt_argv(args, t).len() == args.len() + 2,
        bt_argv(args, t)[0] == number::decimal(t),
        bt_argv(args, t)[1] == "bluetoothctl"@,
        0 <= i < args.len() ==> bt_argv(args, t)[i + 2] == args[i],
        on_device(word, mac, t) == seq![number::decimal(t), "bluetoothctl"@, word, mac],
        devices_argv() == seq!["4"@, "bluetoothctl"@, "devices"@],
        trust_word(true) == "trust"@,
        trust_word(false) == "untrust"@,
{
    number::lemma_small_numbers();
    assert(on_device(word, mac, t) == seq![number::decimal(t), "bluetoothctl"@, word, mac]);
    assert(devices_argv() == seq!["4"@, "bluetoothctl"@, "devices"@]);
}

/// What is said of commands, devices and adapters is said of what they hold.
pub proof fn law_views(c: Command, d: Device, a: Adapter, v: Seq<Device>, w: Seq<(String, String)>, i: int)
    ensures
        c@.len() == c.argv@.len(),
        0 <= i < c.argv@.len() ==> c@[i] == c.argv@[i]@,
        d@.mac == d.mac@,
        d@.name == d.name@,
        d@.icon == d.icon@,
        d@.paired == d.paired,
        d@.bonded == d.bonded,
        d@.connected == d.connected,
        d@.trusted == d.trusted,
        d@.battery == d.battery,
        d@.rssi == d.rssi,
        a@.mac == a.mac@,
        a@.name == a.name@,
        a@.powered == a.powered,
        a@.discoverable == a.discoverable,
        a@.pairable == a.pairable,
        a@.discovering == a.discovering,
        device_views(v).len() == v.len(),
        0 <= i < v.len() ==> device_views(v)[i] == v[i]@,
        pair_views(w).len() == w.len(),
        0 <= i < w.len() ==> pair_views(w)[i].0 == w[i].0@ && pair_views(w)[i].1 == w[i].1@,
{
}

/// A line begins with a word, apart from white space, exactly where the word
/// stands behind white space alone.
proof fn lemma_begins(line: Seq<char>, p: Seq<char>)
    requires
        p.len() > 0,
        !text::is_space(p[0]),
        !text::is_space(p.last()),
    ensures
        p.is_prefix_of(text::trimmed(line)) <==> exists|j: int|
            0 <= j && j + p.len() <= line.len() && #[trigger] line.subrange(j, j + p.len()) == p && (
            forall|m: int| 0 <= m < j ==> text::is_space(#[trigger] line[m])),
{
    let n = p.len() as int;
    let t = text::trimmed(line);
    if p.is_prefix_of(t) {
        let (a, b) = text::lemma_where_trimmed(line);
        assert(line.subrange(a, a + n) == t.subrange(0, n));
    }
    if exists|j: int|
        0 <= j && j + p.len() <= line.len() && #[trigger] line.subrange(j, j + p.len()) == p && (
        forall|m: int| 0 <= m < j ==> text::is_space(#[trigger] line[m])) {
        let j = choose|j: int|
            0 <= j && j + p.len() <= line.len() && #[trigger] line.subrange(j, j + p.len()) == p && (
            forall|m: int| 0 <= m < j ==> text::is_space(#[trigger] line[m]));
        assert(line[j] == p[0]) by {
            assert(line.subrange(j, j + n)[0] == line[j]);
        }
        text::lemma_find_is(line, text::visible(), j);
        let u = text::trim_start(line);
        assert(u == line.skip(j));
        text::lemma_end_of(u, text::visible());
        assert(u[n - 1] == p.last()) by {
            assert(line.subrange(j, j + n)[n - 1] == line[j + n - 1]);
        }
        let e = text::end_of(u, text::visible()) as int;
        if e < n {
            assert(!text::visible()(u[n - 1]));
        }
        assert(t.subrange(0, n) == line.subrange(j, j + n));
    }
}

/// A device is up exactly where a line says so: behind white space alone it has
/// `Connected:`, and somewhere it has `yes`. No other line has a say.
pub proof fn law_up_is_said_by_a_line(out: Seq<char>)
    ensures
        link_up(out) <==> exists|i: int, j: int, k: int|
            0 <= i < text::line_seq(out).len() && 0 <= j && j + 10 <= text::line_seq(out)[i].len()
                && #[trigger] text::line_seq(out)[i].subrange(j, j + 10) == "Connected:"@ && (
            forall|m: int| 0 <= m < j ==> text::is_space(#[trigger] text::line_seq(out)[i][m]))
                && 0 <= k && k + 3 <= text::line_seq(out)[i].len()
                && #[trigger] text::line_seq(out)[i].subrange(k, k + 3) == "yes"@,
{
    reveal_strlit("Connected:");
    reveal_strlit("yes");
    let ls = text::line_seq(out);
    assert forall|i: int| 0 <= i < ls.len() implies (link_line(#[trigger] ls[i]) <==> exists|
        j: int,
        k: int,
    |
        0 <= j && j + 10 <= ls[i].len() && #[trigger] ls[i].subrange(j, j + 10) == "Connected:"@ && (
        forall|m: int| 0 <= m < j ==> text::is_space(#[trigger] ls[i][m])) && 0 <= k && k + 3
            <= ls[i].len() && #[trigger] ls[i].subrange(k, k + 3) == "yes"@) by {
        lemma_begins(ls[i], "Connected:"@);
        text::law_occurs(ls[i], "yes"@);
        if link_line(ls[i]) {
            let j = choose|j: int|
                0 <= j && j + "Connected:"@.len() <= ls[i].len() && #[trigger] ls[i].subrange(
                    j,
                    j + "Connected:"@.len(),
                ) == "Connected:"@ && (forall|m: int|
                    0 <= m < j ==> text::is_space(#[trigger] ls[i][m]));
            let k = choose|k: int|
                0 <= k && k + "yes"@.len() <= ls[i].len() && #[trigger] ls[i].subrange(
                    k,
                    k + "yes"@.len(),
                ) == "yes"@;
            assert(ls[i].subrange(j, j + 10) == "Connected:"@);
            assert(ls[i].subrange(k, k + 3) == "yes"@);
        }
    }
}

/// Where no line that begins with `Connected:` has a `yes`, the device is down,
/// whatever the other lines say.
pub proof fn law_down_unless_a_line_says_up(out: Seq<char>)
    requires
        forall|i: int|
            0 <= i < text::line_seq(out).len() && "Connected:"@.is_prefix_of(
                text::trimmed(#[trigger] text::line_seq(out)[i]),
            ) ==> !text::occurs(text::line_seq(out)[i], "yes"@),
    ensures
        !link_up(out),
{
}

/// Each line is read for itself: the device is up where the first line says so or
/// the others do.
pub proof fn law_lines_are_read_apart(line: Seq<char>, rest: Seq<char>)
    requires
        !line.contains('\n'),
        line.len() > 0,
        line.last() != '\r',
    ensures
        link_up(line + seq!['\n'] + rest) == (link_up(line) || link_up(rest)),
{
    text::law_lines(line, rest);
    let all = text::line_seq(line + seq!['\n'] + rest);
    let tail = text::line_seq(rest);
    assert(all == seq![line] + tail);
    assert(text::line_seq(line)[0] == line);
    assert(all[0] == line);
    if link_up(rest) {
        let i = choose|i: int| 0 <= i < tail.len() && link_line(#[trigger] tail[i]);
        assert(all[i + 1] == tail[i]);
        assert(link_line(all[i + 1]));
    }
    if link_up(line + seq!['\n'] + rest) {
        let i = choose|i: int| 0 <= i < all.len() && link_line(#[trigger] all[i]);
        if i > 0 {
            assert(tail[i - 1] == all[i]);
            assert(link_line(tail[i - 1]));
        } else {
            assert(link_line(text::line_seq(line)[0]));
        }
    }
    if link_up(line) {
        assert(link_line(all[0]));
    }
}

/// The entries of more lines are the entries of the ones and then of the others.
pub proof fn law_entries_add_up(ls: Seq<Seq<char>>, more: Seq<Seq<char>>)
    ensures
        entries(ls + more) == entries(ls) + entries(more),
    decreases more.len(),
{
    if more.len() == 0 {
        assert(ls + more == ls);
        assert(entries(ls) + entries(more) == entries(ls));
    } else {
        law_entries_add_up(ls, more.drop_last());
        assert((ls + more).drop_last() == ls + more.drop_last());
        assert((ls + more).last() == more.last());
        assert(entries(ls + more) == entries(ls) + entries(more));
    }
}

/// A line with `Device`, an address and a name has that address and that name.
pub proof fn law_entry(
    before: Seq<char>,
    mac: Seq<char>,
    name: Seq<char>,
    after: Seq<char>,
)
    requires
        forall|i: int| 0 <= i < before.len() ==> text::is_space(#[trigger] before[i]),
        forall|i: int| 0 <= i < after.len() ==> text::is_space(#[trigger] after[i]),
        !mac.contains(' '),
        name.len() > 0,
        !text::is_space(name.last()),
    ensures
        entries(seq![before + ("Device "@ + mac + seq![' '] + name) + after]) == seq![(mac, name)],
{
    reveal_strlit("Device ");
    let t = "Device "@ + mac + seq![' '] + name;
    let line = before + t + after;
    assert(t[0] == 'D');
    assert(t.last() == name.last());
    text::law_trim_takes_the_blanks_around(before, t, after);
    let rest = mac + seq![' '] + name;
    assert(t == "Device "@ + rest);
    text::law_prefix("Device "@, rest, t);
    text::law_halves(mac, ' ', name, rest);
    assert(seq![line].drop_last() == Seq::<Seq<char>>::empty());
    assert(entries(Seq::<Seq<char>>::empty()) == Seq::<(Seq<char>, Seq<char>)>::empty());
    assert(device_entry(line) == Some((mac, name)));
    assert(entries(seq![line]) == seq![(mac, name)]);
}

/// Every entry comes from such a line.
pub proof fn law_entry_comes_from_its_line(line: Seq<char>)
    ensures
        entries(seq![line]).len() <= 1,
        entries(seq![line]).len() == 1 ==> {
            let (mac, name) = entries(seq![line])[0];
            &&& !mac.contains(' ')
            &&& text::trimmed(line) == "Device "@ + mac + seq![' '] + name
        },
{
    assert(seq![line].drop_last() == Seq::<Seq<char>>::empty());
    assert(entries(Seq::<Seq<char>>::empty()) == Seq::<(Seq<char>, Seq<char>)>::empty());
    let t = text::trimmed(line);
    if device_entry(line) is Some {
        text::law_prefix("Device "@, seq![], t);
        let rest = text::after_prefix(t, "Device "@)->0;
        let k = text::find(rest, text::is(' ')) as int;
        text::lemma_find(rest, text::is(' '));
        let (mac, name) = device_entry(line)->0;
        assert(rest == mac + seq![' '] + name);
        assert forall|i: int| 0 <= i < mac.len() implies mac[i] != ' ' by {
            assert(mac[i] == rest[i]);
            assert(!(text::is(' ')(rest[i])));
        }
        assert("Device "@ + rest == "Device "@ + mac + seq![' '] + name);
    }
}

/// Whether no line from a place on begins with a word, apart from white space.
pub open spec fn none_begins(ls: Seq<Seq<char>>, from: int, p: Seq<char>) -> bool {
    forall|j: int| from <= j < ls.len() ==> !p.is_prefix_of(text::trimmed(#[trigger] ls[j]))
}

proof fn lemma_none_begins(ls: Seq<Seq<char>>, from: int, p: Seq<char>)
    requires
        none_begins(ls, from, p),
        0 <= from < ls.len(),
    ensures
        none_begins(ls.drop_last(), from, p),
        !p.is_prefix_of(text::trimmed(ls.last())),
{
    let before = ls.drop_last();
    assert(ls.last() == ls[ls.len() - 1]);
    assert forall|j: int| from <= j < before.len() implies !p.is_prefix_of(
        text::trimmed(#[trigger] before[j]),
    ) by {
        assert(before[j] == ls[j]);
    }
}

/// What one line says, and what it leaves as it was.
proof fn lemma_device_line(d: DeviceView, line: Seq<char>)
    ensures
        ({
            let t = text::trimmed(line);
            "Name: "@.is_prefix_of(t) ==> device_line(d, line).name == t.skip(6)
        }),
        !"Name: "@.is_prefix_of(text::trimmed(line)) ==> device_line(d, line).name == d.name,
        ({
            let t = text::trimmed(line);
            "Icon: "@.is_prefix_of(t) ==> device_line(d, line).icon == t.skip(6)
        }),
        !"Icon: "@.is_prefix_of(text::trimmed(line)) ==> device_line(d, line).icon == d.icon,
        ({
            let t = text::trimmed(line);
            "Paired: "@.is_prefix_of(t) ==> device_line(d, line).paired == (t == "Paired: yes"@)
        }),
        !"Paired: "@.is_prefix_of(text::trimmed(line)) ==> device_line(d, line).paired == d.paired,
        ({
            let t = text::trimmed(line);
            "Bonded: "@.is_prefix_of(t) ==> device_line(d, line).bonded == (t == "Bonded: yes"@)
        }),
        !"Bonded: "@.is_prefix_of(text::trimmed(line)) ==> device_line(d, line).bonded == d.bonded,
        ({
            let t = text::trimmed(line);
            "Connected: "@.is_prefix_of(t) ==> device_line(d, line).connected == (t == "Connected: yes"@)
        }),
        !"Connected: "@.is_prefix_of(text::trimmed(line)) ==> device_line(d, line).connected == d.connected,
        ({
            let t = text::trimmed(line);
            "Trusted: "@.is_prefix_of(t) ==> device_line(d, line).trusted == (t == "Trusted: yes"@)
        }),
        !"Trusted: "@.is_prefix_of(text::trimmed(line)) ==> device_line(d, line).trusted == d.trusted,
        ({
            let t = text::trimmed(line);
            "RSSI: "@.is_prefix_of(t) ==> device_line(d, line).rssi == (match text::word(t.skip(6)) {
                Some(w) => number::spelled_i32(w),
                None => None,
            })
        }),
        !"RSSI: "@.is_prefix_of(text::trimmed(line)) ==> device_line(d, line).rssi == d.rssi,
        ({
            let t = text::trimmed(line);
            "Battery Percentage: "@.is_prefix_of(t) ==> device_line(d, line).battery == (match text::halves(t.skip(20), '(') {
                Some((_, rest)) => number::spelled_u8(text::without_trailing(rest, ')')),
                None => None,
            })
        }),
        !"Battery Percentage: "@.is_prefix_of(text::trimmed(line)) ==> device_line(d, line).battery == d.battery,
{
    let t = text::trimmed(line);
    reveal_strlit("Name: ");
    reveal_strlit("Icon: ");
    reveal_strlit("Paired: ");
    reveal_strlit("Bonded: ");
    reveal_strlit("Connected: ");
    reveal_strlit("Trusted: ");
    reveal_strlit("RSSI: ");
    reveal_strlit("Battery Percentage: ");
    reveal_strlit("Paired: yes");
    reveal_strlit("Bonded: yes");
    reveal_strlit("Connected: yes");
    reveal_strlit("Trusted: yes");
    reveal_strlit("yes");
    if "Name: "@.is_prefix_of(t) {
        assert(t.subrange(0, 6) == "Name: "@);
        assert(t[0] == t.subrange(0, 6)[0] && t[1] == t.subrange(0, 6)[1] && t[2] == t.subrange(0, 6)[2]);
    }
    if "Icon: "@.is_prefix_of(t) {
        assert(t.subrange(0, 6) == "Icon: "@);
        assert(t[0] == t.subrange(0, 6)[0] && t[1] == t.subrange(0, 6)[1] && t[2] == t.subrange(0, 6)[2]);
    }
    if "Paired: "@.is_prefix_of(t) {
        assert(t.subrange(0, 8) == "Paired: "@);
        assert(t[0] == t.subrange(0, 8)[0] && t[1] == t.subrange(0, 8)[1] && t[2] == t.subrange(0, 8)[2]);
        assert("Paired: yes"@.skip(8) == "yes"@);
        if t.skip(8) == "yes"@ {
            assert(t == "Paired: "@ + "yes"@);
            assert(t == "Paired: yes"@);
        }
    }
    if "Bonded: "@.is_prefix_of(t) {
        assert(t.subrange(0, 8) == "Bonded: "@);
        assert(t[0] == t.subrange(0, 8)[0] && t[1] == t.subrange(0, 8)[1] && t[2] == t.subrange(0, 8)[2]);
        assert("Bonded: yes"@.skip(8) == "yes"@);
        if t.skip(8) == "yes"@ {
            assert(t == "Bonded: "@ + "yes"@);
            assert(t == "Bonded: yes"@);
        }
    }
    if "Connected: "@.is_prefix_of(t) {
        assert(t.subrange(0, 11) == "Connected: "@);
        assert(t[0] == t.subrange(0, 11)[0] && t[1] == t.subrange(0, 11)[1] && t[2] == t.subrange(0, 11)[2]);
        assert("Connected: yes"@.skip(11) == "yes"@);
        if t.skip(11) == "yes"@ {
            assert(t == "Connected: "@ + "yes"@);
            assert(t == "Connected: yes"@);
        }
    }
    if "Trusted: "@.is_prefix_of(t) {
        assert(t.subrange(0, 9) == "Trusted: "@);
        assert(t[0] == t.subrange(0, 9)[0] && t[1] == t.subrange(0, 9)[1] && t[2] == t.subrange(0, 9)[2]);
        assert("Trusted: yes"@.skip(9) == "yes"@);
        if t.skip(9) == "yes"@ {
            assert(t == "Trusted: "@ + "yes"@);
            assert(t == "Trusted: yes"@);
        }
    }
    if "RSSI: "@.is_prefix_of(t) {
        assert(t.subrange(0, 6) == "RSSI: "@);
        assert(t[0] == t.subrange(0, 6)[0] && t[1] == t.subrange(0, 6)[1] && t[2] == t.subrange(0, 6)[2]);
    }
    if "Battery Percentage: "@.is_prefix_of(t) {
        assert(t.subrange(0, 20) == "Battery Percentage: "@);
        assert(t[0] == t.subrange(0, 20)[0] && t[1] == t.subrange(0, 20)[1] && t[2] == t.subrange(0, 20)[2]);
    }
}

proof fn lemma_last_of_device_lines(d: DeviceView, ls: Seq<Seq<char>>, i: int)
    requires
        0 <= i < ls.len(),
    ensures
        ({
            let t = text::trimmed(ls[i]);
            "Name: "@.is_prefix_of(t) && none_begins(ls, i + 1, "Name: "@) ==> device_lines(d, ls).name
                == t.skip(6)
        }),
        ({
            let t = text::trimmed(ls[i]);
            "Icon: "@.is_prefix_of(t) && none_begins(ls, i + 1, "Icon: "@) ==> device_lines(d, ls).icon
                == t.skip(6)
        }),
        ({
            let t = text::trimmed(ls[i]);
            "Paired: "@.is_prefix_of(t) && none_begins(ls, i + 1, "Paired: "@) ==> device_lines(d, ls).paired
                == (t == "Paired: yes"@)
        }),
        ({
            let t = text::trimmed(ls[i]);
            "Bonded: "@.is_prefix_of(t) && none_begins(ls, i + 1, "Bonded: "@) ==> device_lines(d, ls).bonded
                == (t == "Bonded: yes"@)
        }),
        ({
            let t = text::trimmed(ls[i]);
            "Connected: "@.is_prefix_of(t) && none_begins(ls, i + 1, "Connected: "@) ==> device_lines(d, ls).connected
                == (t == "Connected: yes"@)
        }),
        ({
            let t = text::trimmed(ls[i]);
            "Trusted: "@.is_prefix_of(t) && none_begins(ls, i + 1, "Trusted: "@) ==> device_lines(d, ls).trusted
                == (t == "Trusted: yes"@)
        }),
        ({
            let t = text::trimmed(ls[i]);
            "RSSI: "@.is_prefix_of(t) && none_begins(ls, i + 1, "RSSI: "@) ==> device_lines(d, ls).rssi
                == (match text::word(t.skip(6)) {
                Some(w) => number::spelled_i32(w),
                None => None,
            })
        }),
        ({
            let t = text::trimmed(ls[i]);
            "Battery Percentage: "@.is_prefix_of(t) && none_begins(ls, i + 1, "Battery Percentage: "@) ==> device_lines(d, ls).battery
                == (match text::halves(t.skip(20), '(') {
                Some((_, rest)) => number::spelled_u8(text::without_trailing(rest, ')')),
                None => None,
            })
        }),
    decreases ls.len(),
{
    let before = ls.drop_last();
    lemma_device_line(device_lines(d, before), ls.last());
    if i < ls.len() - 1 {
        lemma_last_of_device_lines(d, before, i);
        assert(before[i] == ls[i]);
        if none_begins(ls, i + 1, "Name: "@) {
            lemma_none_begins(ls, i + 1, "Name: "@);
        }
        if none_begins(ls, i + 1, "Icon: "@) {
            lemma_none_begins(ls, i + 1, "Icon: "@);
        }
        if none_begins(ls, i + 1, "Paired: "@) {
            lemma_none_begins(ls, i + 1, "Paired: "@);
        }
        if none_begins(ls, i + 1, "Bonded: "@) {
            lemma_none_begins(ls, i + 1, "Bonded: "@);
        }
        if none_begins(ls, i + 1, "Connected: "@) {
            lemma_none_begins(ls, i + 1, "Connected: "@);
        }
        if none_begins(ls, i + 1, "Trusted: "@) {
            lemma_none_begins(ls, i + 1, "Trusted: "@);
        }
        if none_begins(ls, i + 1, "RSSI: "@) {
            lemma_none_begins(ls, i + 1, "RSSI: "@);
        }
        if none_begins(ls, i + 1, "Battery Percentage: "@) {
            lemma_none_begins(ls, i + 1, "Battery Percentage: "@);
        }
    }
}

proof fn lemma_none_of_device_lines(d: DeviceView, ls: Seq<Seq<char>>)
    ensures
        none_begins(ls, 0, "Name: "@) ==> device_lines(d, ls).name == d.name,
        none_begins(ls, 0, "Icon: "@) ==> device_lines(d, ls).icon == d.icon,
        none_begins(ls, 0, "Paired: "@) ==> device_lines(d, ls).paired == d.paired,
        none_begins(ls, 0, "Bonded: "@) ==> device_lines(d, ls).bonded == d.bonded,
        none_begins(ls, 0, "Connected: "@) ==> device_lines(d, ls).connected == d.connected,
        none_begins(ls, 0, "Trusted: "@) ==> device_lines(d, ls).trusted == d.trusted,
        none_begins(ls, 0, "RSSI: "@) ==> device_lines(d, ls).rssi == d.rssi,
        none_begins(ls, 0, "Battery Percentage: "@) ==> device_lines(d, ls).battery == d.battery,
    decreases ls.len(),
{
    if ls.len() > 0 {
        lemma_none_of_device_lines(d, ls.drop_last());
        lemma_device_line(device_lines(d, ls.drop_last()), ls.last());
        if none_begins(ls, 0, "Name: "@) {
            lemma_none_begins(ls, 0, "Name: "@);
        }
        if none_begins(ls, 0, "Icon: "@) {
            lemma_none_begins(ls, 0, "Icon: "@);
        }
        if none_begins(ls, 0, "Paired: "@) {
            lemma_none_begins(ls, 0, "Paired: "@);
        }
        if none_begins(ls, 0, "Bonded: "@) {
            lemma_none_begins(ls, 0, "Bonded: "@);
        }
        if none_begins(ls, 0, "Connected: "@) {
            lemma_none_begins(ls, 0, "Connected: "@);
        }
        if none_begins(ls, 0, "Trusted: "@) {
            lemma_none_begins(ls, 0, "Trusted: "@);
        }
        if none_begins(ls, 0, "RSSI: "@) {
            lemma_none_begins(ls, 0, "RSSI: "@);
        }
        if none_begins(ls, 0, "Battery Percentage: "@) {
            lemma_none_begins(ls, 0, "Battery Percentage: "@);
        }
    }
}

/// Each thing that is known of a device is what the last line about it says.
pub proof fn law_last_line_counts(mac: Seq<char>, name: Seq<char>, out: Seq<char>, i: int)
    requires
        0 <= i < text::line_seq(out).len(),
    ensures
        ({
            let ls = text::line_seq(out);
            let t = text::trimmed(ls[i]);
            "Name: "@.is_prefix_of(t) && none_begins(ls, i + 1, "Name: "@) ==> described(mac, name, out).name
                == t.skip(6)
        }),
        ({
            let ls = text::line_seq(out);
            let t = text::trimmed(ls[i]);
            "Icon: "@.is_prefix_of(t) && none_begins(ls, i + 1, "Icon: "@) ==> described(mac, name, out).icon
                == t.skip(6)
        }),
        ({
            let ls = text::line_seq(out);
            let t = text::trimmed(ls[i]);
            "Paired: "@.is_prefix_of(t) && none_begins(ls, i + 1, "Paired: "@) ==> described(mac, name, out).paired
                == (t == "Paired: yes"@)
        }),
        ({
            let ls = text::line_seq(out);
            let t = text::trimmed(ls[i]);
            "Bonded: "@.is_prefix_of(t) && none_begins(ls, i + 1, "Bonded: "@) ==> described(mac, name, out).bonded
                == (t == "Bonded: yes"@)
        }),
        ({
            let ls = text::line_seq(out);
            let t = text::trimmed(ls[i]);
            "Connected: "@.is_prefix_of(t) && none_begins(ls, i + 1, "Connected: "@) ==> described(mac, name, out).connected
                == (t == "Connected: yes"@)
        }),
        ({
            let ls = text::line_seq(out);
            let t = text::trimmed(ls[i]);
            "Trusted: "@.is_prefix_of(t) && none_begins(ls, i + 1, "Trusted: "@) ==> described(mac, name, out).trusted
                == (t == "Trusted: yes"@)
        }),
        ({
            let ls = text::line_seq(out);
            let t = text::trimmed(ls[i]);
            "RSSI: "@.is_prefix_of(t) && none_begins(ls, i + 1, "RSSI: "@) ==> described(mac, name, out).rssi
                == (match text::word(t.skip(6)) {
                Some(w) => number::spelled_i32(w),
                None => None,
            })
        }),
        ({
            let ls = text::line_seq(out);
            let t = text::trimmed(ls[i]);
            "Battery Percentage: "@.is_prefix_of(t) && none_begins(ls, i + 1, "Battery Percentage: "@) ==> described(mac, name, out).battery
                == (match text::halves(t.skip(20), '(') {
                Some((_, rest)) => number::spelled_u8(text::without_trailing(rest, ')')),
                None => None,
            })
        }),
{
    lemma_last_of_device_lines(bare_device(mac, name), text::line_seq(out), i);
}

/// What no line tells of a device is not known of it, but for the name that it is
/// listed under.
pub proof fn law_nothing_is_made_up(mac: Seq<char>, name: Seq<char>, out: Seq<char>)
    ensures
        described(mac, name, out).mac == mac,
        none_begins(text::line_seq(out), 0, "Name: "@) ==> described(mac, name, out).name == name,
        none_begins(text::line_seq(out), 0, "Icon: "@) ==> described(mac, name, out).icon == Seq::<char>::empty(),
        none_begins(text::line_seq(out), 0, "Paired: "@) ==> described(mac, name, out).paired == false,
        none_begins(text::line_seq(out), 0, "Bonded: "@) ==> described(mac, name, out).bonded == false,
        none_begins(text::line_seq(out), 0, "Connected: "@) ==> described(mac, name, out).connected == false,
        none_begins(text::line_seq(out), 0, "Trusted: "@) ==> described(mac, name, out).trusted == false,
        none_begins(text::line_seq(out), 0, "RSSI: "@) ==> described(mac, name, out).rssi == None::<i32>,
        none_begins(text::line_seq(out), 0, "Battery Percentage: "@) ==> described(mac, name, out).battery == None::<u8>,
{
    lemma_none_of_device_lines(bare_device(mac, name), text::line_seq(out));
    lemma_lines_keep(bare_device(mac, name), text::line_seq(out));
}

/// What one line says, and what it leaves as it was.
proof fn lemma_adapter_line(a: AdapterView, line: Seq<char>)
    ensures
        ({
            let t = text::trimmed(line);
            "Controller "@.is_prefix_of(t) ==> adapter_line(a, line).mac == (match text::word(t.skip(11)) {
                Some(w) => w,
                None => seq![],
            })
        }),
        !"Controller "@.is_prefix_of(text::trimmed(line)) ==> adapter_line(a, line).mac == a.mac,
        ({
            let t = text::trimmed(line);
            "Name: "@.is_prefix_of(t) ==> adapter_line(a, line).name == t.skip(6)
        }),
        !"Name: "@.is_prefix_of(text::trimmed(line)) ==> adapter_line(a, line).name == a.name,
        ({
            let t = text::trimmed(line);
            "Powered: "@.is_prefix_of(t) ==> adapter_line(a, line).powered == (t.len() >= 12 && t.take(12) == "Powered: yes"@)
        }),
        !"Powered: "@.is_prefix_of(text::trimmed(line)) ==> adapter_line(a, line).powered == a.powered,
        ({
            let t = text::trimmed(line);
            "Discoverable: "@.is_prefix_of(t) ==> adapter_line(a, line).discoverable == (t.len() >= 17 && t.take(17) == "Discoverable: yes"@)
        }),
        !"Discoverable: "@.is_prefix_of(text::trimmed(line)) ==> adapter_line(a, line).discoverable == a.discoverable,
        ({
            let t = text::trimmed(line);
            "Pairable: "@.is_prefix_of(t) ==> adapter_line(a, line).pairable == (t.len() >= 13 && t.take(13) == "Pairable: yes"@)
        }),
        !"Pairable: "@.is_prefix_of(text::trimmed(line)) ==> adapter_line(a, line).pairable == a.pairable,
        ({
            let t = text::trimmed(line);
            "Discovering: "@.is_prefix_of(t) ==> adapter_line(a, line).discovering == (t.len() >= 16 && t.take(16) == "Discovering: yes"@)
        }),
        !"Discovering: "@.is_prefix_of(text::trimmed(line)) ==> adapter_line(a, line).discovering == a.discovering,
{
    let t = text::trimmed(line);
    reveal_strlit("Controller ");
    reveal_strlit("Name: ");
    reveal_strlit("Powered: ");
    reveal_strlit("Discoverable: ");
    reveal_strlit("Pairable: ");
    reveal_strlit("Discovering: ");
    reveal_strlit("Powered: yes");
    reveal_strlit("Discoverable: yes");
    reveal_strlit("Pairable: yes");
    reveal_strlit("Discovering: yes");
    reveal_strlit("yes");
    if "Controller "@.is_prefix_of(t) {
        assert(t.subrange(0, 11) == "Controller "@);
        assert(t[0] == t.subrange(0, 11)[0] && t[1] == t.subrange(0, 11)[1] && t[2] == t.subrange(0, 11)[2]);
    }
    if "Name: "@.is_prefix_of(t) {
        assert(t.subrange(0, 6) == "Name: "@);
        assert(t[0] == t.subrange(0, 6)[0] && t[1] == t.subrange(0, 6)[1] && t[2] == t.subrange(0, 6)[2]);
    }
    if "Powered: "@.is_prefix_of(t) {
        assert(t.subrange(0, 9) == "Powered: "@);
        assert(t[0] == t.subrange(0, 9)[0] && t[1] == t.subrange(0, 9)[1] && t[2] == t.subrange(0, 9)[2]);
        if t.len() >= 12 {
            assert(t.take(12) == "Powered: "@ + t.skip(9).take(3));
            assert("Powered: yes"@ == "Powered: "@ + "yes"@);
            assert("Powered: yes"@.skip(9) == "yes"@);
            assert(t.take(12).skip(9) == t.skip(9).take(3));
            assert(t.skip(9).take(3) == t.skip(9).subrange(0, 3));
        }
    }
    if "Discoverable: "@.is_prefix_of(t) {
        assert(t.subrange(0, 14) == "Discoverable: "@);
        assert(t[0] == t.subrange(0, 14)[0] && t[1] == t.subrange(0, 14)[1] && t[2] == t.subrange(0, 14)[2]);
        assert(t[8] == t.subrange(0, 14)[8]);
        if t.len() >= 17 {
            assert(t.take(17) == "Discoverable: "@ + t.skip(14).take(3));
            assert("Discoverable: yes"@ == "Discoverable: "@ + "yes"@);
            assert("Discoverable: yes"@.skip(14) == "yes"@);
            assert(t.take(17).skip(14) == t.skip(14).take(3));
            assert(t.skip(14).take(3) == t.skip(14).subrange(0, 3));
        }
    }
    if "Pairable: "@.is_prefix_of(t) {
        assert(t.subrange(0, 10) == "Pairable: "@);
        assert(t[0] == t.subrange(0, 10)[0] && t[1] == t.subrange(0, 10)[1] && t[2] == t.subrange(0, 10)[2]);
        if t.len() >= 13 {
            assert(t.take(13) == "Pairable: "@ + t.skip(10).take(3));
            assert("Pairable: yes"@ == "Pairable: "@ + "yes"@);
            assert("Pairable: yes"@.skip(10) == "yes"@);
            assert(t.take(13).skip(10) == t.skip(10).take(3));
            assert(t.skip(10).take(3) == t.skip(10).subrange(0, 3));
        }
    }
    if "Discovering: "@.is_prefix_of(t) {
        assert(t.subrange(0, 13) == "Discovering: "@);
        assert(t[0] == t.subrange(0, 13)[0] && t[1] == t.subrange(0, 13)[1] && t[2] == t.subrange(0, 13)[2]);
        assert(t[8] == t.subrange(0, 13)[8]);
        if t.len() >= 16 {
            assert(t.take(16) == "Discovering: "@ + t.skip(13).take(3));
            assert("Discovering: yes"@ == "Discovering: "@ + "yes"@);
            assert("Discovering: yes"@.skip(13) == "yes"@);
            assert(t.take(16).skip(13) == t.skip(13).take(3));
            assert(t.skip(13).take(3) == t.skip(13).subrange(0, 3));
        }
    }
}

proof fn lemma_last_of_adapter_lines(a: AdapterView, ls: Seq<Seq<char>>, i: int)
    requires
        0 <= i < ls.len(),
    ensures
        ({
            let t = text::trimmed(ls[i]);
            "Controller "@.is_prefix_of(t) && none_begins(ls, i + 1, "Controller "@) ==> adapter_lines(a, ls).mac
                == (match text::word(t.skip(11)) {
                Some(w) => w,
                None => seq![],
            })
        }),
        ({
            let t = text::trimmed(ls[i]);
            "Name: "@.is_prefix_of(t) && none_begins(ls, i + 1, "Name: "@) ==> adapter_lines(a, ls).name
                == t.skip(6)
        }),
        ({
            let t = text::trimmed(ls[i]);
            "Powered: "@.is_prefix_of(t) && none_begins(ls, i + 1, "Powered: "@) ==> adapter_lines(a, ls).powered
                == (t.len() >= 12 && t.take(12) == "Powered: yes"@)
        }),
        ({
            let t = text::trimmed(ls[i]);
            "Discoverable: "@.is_prefix_of(t) && none_begins(ls, i + 1, "Discoverable: "@) ==> adapter_lines(a, ls).discoverable
                == (t.len() >= 17 && t.take(17) == "Discoverable: yes"@)
        }),
        ({
            let t = text::trimmed(ls[i]);
            "Pairable: "@.is_prefix_of(t) && none_begins(ls, i + 1, "Pairable: "@) ==> adapter_lines(a, ls).pairable
                == (t.len() >= 13 && t.take(13) == "Pairable: yes"@)
        }),
        ({
            let t = text::trimmed(ls[i]);
            "Discovering: "@.is_prefix_of(t) && none_begins(ls, i + 1, "Discovering: "@) ==> adapter_lines(a, ls).discovering
                == (t.len() >= 16 && t.take(16) == "Discovering: yes"@)
        }),
    decreases ls.len(),
{
    let before = ls.drop_last();
    lemma_adapter_line(adapter_lines(a, before), ls.last());
    if i < ls.len() - 1 {
        lemma_last_of_adapter_lines(a, before, i);
        assert(before[i] == ls[i]);
        if none_begins(ls, i + 1, "Controller "@) {
            lemma_none_begins(ls, i + 1, "Controller "@);
        }
        if none_begins(ls, i + 1, "Name: "@) {
            lemma_none_begins(ls, i + 1, "Name: "@);
        }
        if none_begins(ls, i + 1, "Powered: "@) {
            lemma_none_begins(ls, i + 1, "Powered: "@);
        }
        if none_begins(ls, i + 1, "Discoverable: "@) {
            lemma_none_begins(ls, i + 1, "Discoverable: "@);
        }
        if none_begins(ls, i + 1, "Pairable: "@) {
            lemma_none_begins(ls, i + 1, "Pairable: "@);
        }
        if none_begins(ls, i + 1, "Discovering: "@) {
            lemma_none_begins(ls, i + 1, "Discovering: "@);
        }
    }
}

proof fn lemma_none_of_adapter_lines(a: AdapterView, ls: Seq<Seq<char>>)
    ensures
        none_begins(ls, 0, "Controller "@) ==> adapter_lines(a, ls).mac == a.mac,
        none_begins(ls, 0, "Name: "@) ==> adapter_lines(a, ls).name == a.name,
        none_begins(ls, 0, "Powered: "@) ==> adapter_lines(a, ls).powered == a.powered,
        none_begins(ls, 0, "Discoverable: "@) ==> adapter_lines(a, ls).discoverable == a.discoverable,
        none_begins(ls, 0, "Pairable: "@) ==> adapter_lines(a, ls).pairable == a.pairable,
        none_begins(ls, 0, "Discovering: "@) ==> adapter_lines(a, ls).discovering == a.discovering,
    decreases ls.len(),
{
    if ls.len() > 0 {
        lemma_none_of_adapter_lines(a, ls.drop_last());
        lemma_adapter_line(adapter_lines(a, ls.drop_last()), ls.last());
        if none_begins(ls, 0, "Controller "@) {
            lemma_none_begins(ls, 0, "Controller "@);
        }
        if none_begins(ls, 0, "Name: "@) {
            lemma_none_begins(ls, 0, "Name: "@);
        }
        if none_begins(ls, 0, "Powered: "@) {
            lemma_none_begins(ls, 0, "Powered: "@);
        }
        if none_begins(ls, 0, "Discoverable: "@) {
            lemma_none_begins(ls, 0, "Discoverable: "@);
        }
        if none_begins(ls, 0, "Pairable: "@) {
            lemma_none_begins(ls, 0, "Pairable: "@);
        }
        if none_begins(ls, 0, "Discovering: "@) {
            lemma_none_begins(ls, 0, "Discovering: "@);
        }
    }
}

/// Each thing that is known of the adapter is what the last line about it says.
pub proof fn law_last_line_counts_for_the_adapter(out: Seq<char>, i: int)
    requires
        0 <= i < text::line_seq(out).len(),
    ensures
        ({
            let ls = text::line_seq(out);
            let t = text::trimmed(ls[i]);
            "Controller "@.is_prefix_of(t) && none_begins(ls, i + 1, "Controller "@) ==> adapter_lines(no_adapter(), ls).mac
                == (match text::word(t.skip(11)) {
                Some(w) => w,
                None => seq![],
            })
        }),
        ({
            let ls = text::line_seq(out);
            let t = text::trimmed(ls[i]);
            "Name: "@.is_prefix_of(t) && none_begins(ls, i + 1, "Name: "@) ==> adapter_lines(no_adapter(), ls).name
                == t.skip(6)
        }),
        ({
            let ls = text::line_seq(out);
            let t = text::trimmed(ls[i]);
            "Powered: "@.is_prefix_of(t) && none_begins(ls, i + 1, "Powered: "@) ==> adapter_lines(no_adapter(), ls).powered
                == (t.len() >= 12 && t.take(12) == "Powered: yes"@)
        }),
        ({
            let ls = text::line_seq(out);
            let t = text::trimmed(ls[i]);
            "Discoverable: "@.is_prefix_of(t) && none_begins(ls, i + 1, "Discoverable: "@) ==> adapter_lines(no_adapter(), ls).discoverable
                == (t.len() >= 17 && t.take(17) == "Discoverable: yes"@)
        }),
        ({
            let ls = text::line_seq(out);
            let t = text::trimmed(ls[i]);
            "Pairable: "@.is_prefix_of(t) && none_begins(ls, i + 1, "Pairable: "@) ==> adapter_lines(no_adapter(), ls).pairable
                == (t.len() >= 13 && t.take(13) == "Pairable: yes"@)
        }),
        ({
            let ls = text::line_seq(out);
            let t = text::trimmed(ls[i]);
            "Discovering: "@.is_prefix_of(t) && none_begins(ls, i + 1, "Discovering: "@) ==> adapter_lines(no_adapter(), ls).discovering
                == (t.len() >= 16 && t.take(16) == "Discovering: yes"@)
        }),
{
    lemma_last_of_adapter_lines(no_adapter(), text::line_seq(out), i);
}

/// What no line tells of the adapter is not known of it.
pub proof fn law_nothing_is_made_up_of_the_adapter(out: Seq<char>)
    ensures
        none_begins(text::line_seq(out), 0, "Controller "@) ==> adapter_lines(
            no_adapter(),
            text::line_seq(out),
        ).mac == Seq::<char>::empty(),
        none_begins(text::line_seq(out), 0, "Name: "@) ==> adapter_lines(
            no_adapter(),
            text::line_seq(out),
        ).name == Seq::<char>::empty(),
        none_begins(text::line_seq(out), 0, "Powered: "@) ==> adapter_lines(
            no_adapter(),
            text::line_seq(out),
        ).powered == false,
        none_begins(text::line_seq(out), 0, "Discoverable: "@) ==> adapter_lines(
            no_adapter(),
            text::line_seq(out),
        ).discoverable == false,
        none_begins(text::line_seq(out), 0, "Pairable: "@) ==> adapter_lines(
            no_adapter(),
            text::line_seq(out),
        ).pairable == false,
        none_begins(text::line_seq(out), 0, "Discovering: "@) ==> adapter_lines(
            no_adapter(),
            text::line_seq(out),
        ).discovering == false,
{
    lemma_none_of_adapter_lines(no_adapter(), text::line_seq(out));
}

} // verus!
