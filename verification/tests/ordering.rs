use btkick::bt::Device;
use btkick::order::{device_order, less, list_devices, sort_devices, Listing};
use btkick::sysfs::{hci_dir, usb_device_dir, usb_id, usb_node, Ancestor};

fn listing(mac: &str, name: &str, connected: bool, paired: bool) -> Listing {
    let yes = |b: bool| if b { "yes" } else { "no" };
    Listing {
        mac: mac.to_string(),
        name: name.to_string(),
        info: format!("Paired: {}\nConnected: {}\n", yes(paired), yes(connected)),
    }
}

fn order_of(v: Vec<Listing>) -> Vec<String> {
    list_devices(&v).into_iter().map(|d| d.mac).collect()
}

#[test]
fn connected_then_paired_then_by_name() {
    let v = vec![
        listing("1", "b", false, false),
        listing("2", "a", false, false),
        listing("3", "z", false, true),
        listing("4", "y", true, false),
        listing("5", "z", true, true),
    ];
    assert_eq!(order_of(v), ["5", "4", "3", "2", "1"]);
    // What is in order stays as it is.
    let v = vec![listing("5", "z", true, true), listing("4", "y", true, false), listing("3", "z", false, true)];
    assert_eq!(order_of(v), ["5", "4", "3"]);
}

#[test]
fn case_does_not_matter_for_names() {
    let v = vec![
        listing("1", "beta", false, false),
        listing("2", "Zeta", false, false),
        listing("3", "ALPHA", false, false),
        listing("4", "Éclair", false, false),
        listing("5", "élan", false, false),
    ];
    assert_eq!(order_of(v), ["3", "1", "2", "4", "5"]);
}

#[test]
fn equal_names_keep_their_order() {
    let v = vec![
        listing("1", "Mouse", false, true),
        listing("2", "mouse", false, true),
        listing("3", "MOUSE", false, true),
        listing("4", "mous", false, true),
    ];
    assert_eq!(order_of(v), ["4", "1", "2", "3"]);
    assert!(order_of(Vec::new()).is_empty());
}

#[test]
fn info_overrides_the_listed_name() {
    let mut v = vec![listing("1", "a", false, false), listing("2", "b", false, false)];
    v[0].info.push_str("Name: zz\n");
    let got = list_devices(&v);
    assert_eq!(got[0].mac, "2");
    assert_eq!(got[1].name, "zz");
}

#[test]
fn keys_decide_among_equals() {
    let mut devs = vec![Device::default(), Device::default(), Device::default()];
    devs[0].mac = "x".to_string();
    devs[1].mac = "y".to_string();
    devs[2].mac = "z".to_string();
    devs[2].connected = true;
    let keys: Vec<String> = vec!["b".to_string(), "a".to_string(), "c".to_string()];
    assert_eq!(device_order(&devs, &keys), [2, 1, 0]);
    let sorted = sort_devices(&devs, &keys);
    assert_eq!(sorted[0].mac, "z");
    assert_eq!(sorted[1].mac, "y");
    assert_eq!(sorted[2].mac, "x");
}

#[test]
fn texts_are_ordered_by_code() {
    assert!(less("a", "b") && less("", "a") && less("a", "aa") && less("Z", "a"));
    assert!(!less("a", "a") && !less("b", "a") && !less("a", ""));
    assert!(less("~", "é"));
}

#[test]
fn first_adapter_is_found() {
    let names = vec![Some("rfkill".to_string()), Some("hci1".to_string()), None, Some("hci0".to_string())];
    assert_eq!(hci_dir(&names), Some("hci0".to_string()));
    let names = vec![Some("hci2".to_string()), Some("hci10".to_string())];
    assert_eq!(hci_dir(&names), Some("hci10".to_string()));
    assert_eq!(hci_dir(&vec![None, Some("xhci0".to_string())]), None);
    assert_eq!(hci_dir(&Vec::new()), None);
}

#[test]
fn usb_ids_are_recognised() {
    assert!(usb_id("3-1") && usb_id("1-1.4"));
    assert!(!usb_id("3-1:1.0") && !usb_id("hci0") && !usb_id("0000:00:14.0"));
    assert_eq!(usb_device_dir("3-1"), "/sys/bus/usb/devices/3-1");
}

fn step_up(name: &str, known: bool) -> Ancestor {
    Ancestor { name: Some(name.to_string()), known }
}

#[test]
fn dongle_is_the_nearest_usb_device() {
    let path = vec![
        step_up("3-1:1.0", true),
        step_up("x-y", false),
        step_up("3-1", true),
        step_up("3-0", true),
        Ancestor { name: None, known: false },
    ];
    assert_eq!(usb_node(None, &path), Some("3-1".to_string()));
    assert_eq!(usb_node(Some(String::new()), &path), Some("3-1".to_string()));
    assert_eq!(usb_node(Some("9-9".to_string()), &path), Some("9-9".to_string()));
    assert_eq!(usb_node(None, &vec![step_up("serial0-0", false), step_up("soc", false)]), None);
    assert_eq!(usb_node(Some("9-9".to_string()), &Vec::new()), Some("9-9".to_string()));
}
