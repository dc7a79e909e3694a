use btkick::bt;
use btkick::number;
use btkick::text;

const INFO: &str = "Device C0:FF:EE:00:AA:01 (public)\n\
    \tName: Wireless Earbuds\n\
    \tAlias: Wireless Earbuds\n\
    \tClass: 0x00240404\n\
    \tIcon: audio-headset\n\
    \tPaired: yes\n\
    \tBonded: yes\n\
    \tTrusted: yes\n\
    \tBlocked: no\n\
    \tConnected: yes\n\
    \tRSSI: -54\n\
    \tBattery Percentage: 0x61 (97)\n";

#[test]
fn commands_run_under_a_timeout() {
    assert_eq!(bt::bt(&["devices"], 4).argv, ["4", "bluetoothctl", "devices"]);
    assert_eq!(bt::bt(&[], 4294967295).argv, ["4294967295", "bluetoothctl"]);
    assert_eq!(bt::devices().argv, ["4", "bluetoothctl", "devices"]);
    assert_eq!(bt::show().argv, ["4", "bluetoothctl", "show"]);
    assert_eq!(bt::info("AA:BB").argv, ["4", "bluetoothctl", "info", "AA:BB"]);
    assert_eq!(bt::disconnect("AA:BB").argv, ["6", "bluetoothctl", "disconnect", "AA:BB"]);
    assert_eq!(bt::remove("AA:BB").argv, ["6", "bluetoothctl", "remove", "AA:BB"]);
    let (first, second) = bt::pair("AA:BB");
    assert_eq!(first.argv, ["12", "bluetoothctl", "pair", "AA:BB"]);
    assert_eq!(second.argv, ["3", "bluetoothctl", "trust", "AA:BB"]);
    assert_eq!(bt::set_trust("AA:BB", true).argv, ["3", "bluetoothctl", "trust", "AA:BB"]);
    assert_eq!(bt::set_trust("AA:BB", false).argv, ["3", "bluetoothctl", "untrust", "AA:BB"]);
    assert_eq!(bt::info("AA:BB").clone().argv, bt::info("AA:BB").argv);
}

#[test]
fn link_state_is_read_from_info() {
    assert!(bt::is_connected(INFO));
    assert!(bt::is_connected("\tConnected: yes"));
    assert!(bt::is_connected("Connected:yes\r\n"));
    assert!(!bt::is_connected("\tConnected: no\n\tTrusted: yes\n"));
    assert!(!bt::is_connected("was Connected: yes\n"));
    assert!(!bt::is_connected(""));
}

#[test]
fn device_entries_are_read() {
    let out = "Device C0:FF:EE:00:AA:01 Wireless Earbuds\r\n  Device C0:FF:EE:00:BB:02 M\nDevice X\nnoise\n";
    let got = bt::device_macs(out);
    assert_eq!(got.len(), 2);
    assert_eq!(got[0], ("C0:FF:EE:00:AA:01".to_string(), "Wireless Earbuds".to_string()));
    assert_eq!(got[1], ("C0:FF:EE:00:BB:02".to_string(), "M".to_string()));
    // The name goes to the end of the line, and may be empty only between spaces.
    let got = bt::device_macs("Device A  B");
    assert_eq!(got[0], ("A".to_string(), " B".to_string()));
    assert!(bt::device_macs("").is_empty());
}

#[test]
fn device_info_is_read() {
    let d = bt::device_info("C0:FF:EE:00:AA:01", "fallback", INFO);
    assert_eq!(d.mac, "C0:FF:EE:00:AA:01");
    assert_eq!(d.name, "Wireless Earbuds");
    assert_eq!(d.icon, "audio-headset");
    assert!(d.paired && d.bonded && d.connected && d.trusted);
    assert_eq!(d.rssi, Some(-54));
    assert_eq!(d.battery, Some(97));
}

#[test]
fn device_info_falls_back() {
    let d = bt::device_info("AA:BB", "fallback", "Device AA:BB not available\n");
    assert_eq!(d.mac, "AA:BB");
    assert_eq!(d.name, "fallback");
    assert_eq!(d.icon, "");
    assert!(!d.paired && !d.bonded && !d.connected && !d.trusted);
    assert_eq!(d.rssi, None);
    assert_eq!(d.battery, None);
    let blank = bt::Device::default();
    assert_eq!(blank.mac, "");
    assert_eq!(blank.name, "");
    assert_eq!(blank.battery, None);
}

#[test]
fn odd_values_are_dropped() {
    let rssi = |v: &str| bt::device_info("m", "n", &format!("RSSI: {v}\n")).rssi;
    assert_eq!(rssi("-54 (strong)"), Some(-54));
    assert_eq!(rssi("0xffffffca (-54)"), None);
    assert_eq!(rssi("+7"), Some(7));
    assert_eq!(rssi("2147483647"), Some(i32::MAX));
    assert_eq!(rssi("2147483648"), None);
    assert_eq!(rssi("-2147483648"), Some(i32::MIN));
    assert_eq!(rssi("-"), None);
    let battery = |v: &str| bt::device_info("m", "n", &format!("Battery Percentage: {v}\n")).battery;
    assert_eq!(battery("0x61 (97)"), Some(97));
    assert_eq!(battery("(97))"), Some(97));
    assert_eq!(battery("97"), None);
    assert_eq!(battery("(256)"), None);
    assert_eq!(battery("(-1)"), None);
    assert_eq!(battery("( 97)"), None);
    // A later line replaces an earlier one, also where it cannot be read.
    assert_eq!(bt::device_info("m", "n", "RSSI: -1\nRSSI: x\n").rssi, None);
    // Only a plain `yes` counts.
    assert!(!bt::device_info("m", "n", "Paired: yes!\n").paired);
}

#[test]
fn listed_as_connected_means_up() {
    for out in [INFO, "Connected: yes", " Connected: yes \n", "Connected: no\n", "Connected:yes", ""] {
        let d = bt::device_info("AA:BB", "n", out);
        assert_eq!(d.mac, "AA:BB");
        assert!(!d.connected || bt::is_connected(out));
    }
    assert!(bt::device_info("AA:BB", "n", " Connected: yes \n").connected);
    assert!(!bt::device_info("AA:BB", "n", "Connected:yes").connected);
}

#[test]
fn adapter_is_read() {
    let out = "Controller DE:AD:BE:EF:00:00 (public)\n\tName: hci0\n\tAlias: x\n\tPowered: yes\n\
        \tDiscoverable: no\n\tPairable: yes\n\tDiscovering: yes\n";
    let a = bt::adapter(out);
    assert_eq!(a.mac, "DE:AD:BE:EF:00:00");
    assert_eq!(a.name, "hci0");
    assert!(a.powered && !a.discoverable && a.pairable && a.discovering);
    let a = bt::adapter("No default controller available\n");
    assert_eq!(a.mac, "");
    assert!(!a.powered);
    // Here what begins with `yes` counts.
    assert!(bt::adapter("Powered: yes (really)").powered);
    assert_eq!(bt::adapter("Controller ").mac, "");
    assert_eq!(bt::Adapter::default().clone().name, "");
}

#[test]
fn text_is_cut_as_expected() {
    assert_eq!(text::trim("\u{3000}\t a b \r\n"), "a b");
    assert_eq!(text::trim(" \n"), "");
    assert_eq!(text::trim(text::trim("  x ")), text::trim("  x "));
    assert_eq!(text::lines("a\r\nb\n\nc\r"), ["a", "b", "", "c\r"]);
    assert!(text::lines("").is_empty());
    assert_eq!(text::strip_prefix("Name: é", "Name: "), Some("é"));
    assert_eq!(text::strip_prefix("Nam", "Name"), None);
    assert_eq!(text::split_once("a(b(c", '('), Some(("a", "b(c")));
    assert_eq!(text::split_once("abc", '('), None);
    assert_eq!(text::first_word("  x y"), Some("x"));
    assert_eq!(text::first_word(" \t"), None);
    assert_eq!(text::trim_end_matches("97))", ')'), "97");
    assert!(text::contains("abc", "") && text::contains("abc", "bc") && !text::contains("abc", "cb"));
    assert!(text::has_char("3-1", '-') && !text::has_char("3-1", ':'));
    assert!(text::same("a", "a") && !text::same("a", "b"));
}

#[test]
fn numbers_read_back() {
    assert_eq!(number::natural(0), "0");
    assert_eq!(number::natural(u64::MAX), "18446744073709551615");
    assert_eq!(number::integer(i32::MIN), "-2147483648");
    for n in [i32::MIN, -54, -1, 0, 9, 10, 97, i32::MAX] {
        assert_eq!(number::integer(n), n.to_string());
        assert_eq!(number::parse_i32(&number::integer(n)), Some(n));
    }
    for s in ["", "+", "-", "--1", "+-1", "1a", "٣", "007", "+0", "-0", "99999999999999999999"] {
        assert_eq!(number::parse_i32(s), s.parse::<i32>().ok());
        assert_eq!(number::parse_u8(s), s.parse::<u8>().ok());
    }
    assert_eq!(number::parse_u8("255"), Some(255));
    assert_eq!(number::parse_u8("256"), None);
}
