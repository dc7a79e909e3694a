//! Where the adapter and its USB dongle are found in sysfs.

use crate::{order, text};
use vstd::prelude::*;

verus! {

/// The file that detaches a USB device from its driver.
pub const USB_UNBIND: &'static str = "/sys/bus/usb/drivers/usb/unbind";

/// The file that attaches a USB device to its driver.
pub const USB_BIND: &'static str = "/sys/bus/usb/drivers/usb/bind";

/// The view of an optional string.
pub open spec fn opt_string(o: Option<String>) -> Option<Seq<char>> {
    match o {
        Some(t) => Some(t@),
        None => None,
    }
}

/// Whether a directory entry is an adapter. Names that are not UTF-8 are none.
pub open spec fn is_hci(name: Option<String>) -> bool {
    name is Some && "hci"@.is_prefix_of(name->0@)
}

/// The first `hciN` among the entries of `/sys/class/bluetooth`. The index is
/// not stable: a replug can move `hci0` to `hci1`.
pub fn hci_dir(names: &Vec<Option<String>>) -> (r: Option<String>)
    ensures
        r is None <==> forall|i: int| 0 <= i < names@.len() ==> !is_hci(#[trigger] names@[i]),
        r is Some ==> exists|i: int|
            0 <= i < names@.len() && is_hci(#[trigger] names@[i]) && names@[i]->0@ == r->0@,
        r is Some ==> forall|i: int|
            0 <= i < names@.len() && is_hci(#[trigger] names@[i]) ==> !order::text_less(
                names@[i]->0@,
                r->0@,
            ),
{
    let mut best: Option<String> = None;
    let mut k: usize = 0;
    while k < names.len()
        invariant
            k <= names@.len(),
            best is None <==> forall|i: int| 0 <= i < k ==> !is_hci(#[trigger] names@[i]),
            best is Some ==> exists|i: int|
                0 <= i < k && is_hci(#[trigger] names@[i]) && names@[i]->0@ == best->0@,
            best is Some ==> forall|i: int|
                0 <= i < k && is_hci(#[trigger] names@[i]) ==> !order::text_less(
                    names@[i]->0@,
                    best->0@,
                ),
        decreases names@.len() - k,
    {
        let ghost before = best;
        if let Some(name) = &names[k] {
            if text::starts_with(name.as_str(), "hci") {
                assert(is_hci(names@[k as int]));
                let better: bool = match &best {
                    Some(b) => order::less(name.as_str(), b.as_str()),
                    None => true,
                };
                if better {
                    best = Some(name.clone());
                    assert forall|i: int|
                        0 <= i < k + 1 && is_hci(#[trigger] names@[i]) implies !order::text_less(
                        names@[i]->0@,
                        best->0@,
                    ) by {
                        order::lemma_less_irreflexive(name@);
                        if i < k && order::text_less(names@[i]->0@, name@) {
                            order::lemma_less_transitive(names@[i]->0@, name@, before->0@);
                        }
                    }
                }
            }
        }
        k += 1;
    }
    best
}

/// Where sysfs keeps a USB device.
pub open spec fn usb_dir(name: Seq<char>) -> Seq<char> {
    "/sys/bus/usb/devices/"@ + name
}

/// Where sysfs keeps a USB device.
pub fn usb_device_dir(name: &str) -> (r: String)
    ensures
        r@ == usb_dir(name@),
{
    "/sys/bus/usb/devices/".to_owned().concat(name)
}

/// Whether a name looks like the id of a USB device: `3-1`, not `3-1:1.0`.
pub open spec fn is_usb_id(name: Seq<char>) -> bool {
    name.contains('-') && !name.contains(':')
}

/// Whether a name looks like the id of a USB device.
pub fn usb_id(name: &str) -> (r: bool)
    ensures
        r == is_usb_id(name@),
{
    text::has_char(name, '-') && !text::has_char(name, ':')
}

/// One directory on the way up from the adapter's device.
pub struct Ancestor {
    /// Its name; none for the root and for names that are not UTF-8.
    pub name: Option<String>,
    /// Whether sysfs keeps a USB device of that name.
    pub known: bool,
}

/// Whether a directory is that of a USB device.
pub open spec fn is_usb(a: Ancestor) -> bool {
    a.name is Some && is_usb_id(a.name->0@) && a.known
}

/// The nearest USB device, if there is one.
pub open spec fn nearest_usb(path: Seq<Ancestor>) -> Option<Seq<char>>
    decreases path.len(),
{
    if path.len() == 0 {
        None
    } else if is_usb(path[0]) {
        Some(path[0].name->0@)
    } else {
        nearest_usb(path.skip(1))
    }
}

/// The nearest USB device, if there is one.
fn nearest(path: &Vec<Ancestor>) -> (r: Option<String>)
    ensures
        opt_string(r) == nearest_usb(path@),
{
    let mut i: usize = 0;
    assert(path@.skip(0) == path@);
    while i < path.len()
        invariant
            i <= path@.len(),
            nearest_usb(path@) == nearest_usb(path@.skip(i as int)),
        decreases path@.len() - i,
    {
        let a: &Ancestor = &path[i];
        proof {
            assert(path@.skip(i as int)[0] == *a);
            assert(path@.skip(i as int).skip(1) == path@.skip(i + 1));
        }
        if let Some(name) = &a.name {
            if usb_id(name.as_str()) && a.known {
                return Some(name.clone());
            }
        }
        i += 1;
    }
    None
}

/// The id of the USB device behind the adapter: the override where it is set
/// and not empty, else the nearest USB device on the way up. There is none
/// behind a built-in adapter.
pub fn usb_node(override_id: Option<String>, path: &Vec<Ancestor>) -> (r: Option<String>)
    ensures
        opt_string(r) == (if override_id is Some && override_id->0@.len() > 0 {
            Some(override_id->0@)
        } else {
            nearest_usb(path@)
        }),
{
    if let Some(id) = override_id {
        if !id.as_str().is_empty() {
            return Some(id);
        }
    }
    nearest(path)
}

// ---- what these operations are for ------------------------------------------
/// What is said of an optional string is said of what it holds.
pub proof fn law_optional_text(o: Option<String>)
    ensures
        opt_string(o) is Some <==> o is Some,
        o is Some ==> opt_string(o)->0 == o->0@,
{
}

/// Adapters are the entries whose names begin with these three letters.
pub proof fn law_adapter_names(name: Option<String>)
    ensures
        is_hci(name) <==> name is Some && name->0@.len() >= 3 && name->0@[0] == 'h' && name->0@[1]
            == 'c' && name->0@[2] == 'i',
{
    reveal_strlit("hci");
    if name is Some {
        let n = name->0@;
        if n.len() >= 3 {
            let p = n.subrange(0, 3);
            assert(p[0] == n[0] && p[1] == n[1] && p[2] == n[2]);
            if n[0] == 'h' && n[1] == 'c' && n[2] == 'i' {
                assert(p == "hci"@);
            }
        }
    }
}

/// The id of a USB device has a dash and no colon.
pub proof fn law_usb_ids(name: Seq<char>)
    ensures
        is_usb_id(name) <==> (exists|i: int| 0 <= i < name.len() && #[trigger] name[i] == '-') && (
        forall|i: int| 0 <= i < name.len() ==> #[trigger] name[i] != ':'),
        usb_dir(name).len() == 21 + name.len(),
        usb_dir(name).take(21) == "/sys/bus/usb/devices/"@,
        usb_dir(name).skip(21) == name,
{
    reveal_strlit("/sys/bus/usb/devices/");
    assert(usb_dir(name).take(21) == "/sys/bus/usb/devices/"@);
    assert(usb_dir(name).skip(21) == name);
}

/// The dongle is the first directory on the way up that is a USB device which
/// sysfs keeps; there is none exactly where no directory is.
pub proof fn law_dongle_is_the_nearest(path: Seq<Ancestor>, k: int)
    requires
        0 <= k <= path.len(),
        forall|i: int|
            0 <= i < k ==> !((#[trigger] path[i]).known && path[i].name is Some && is_usb_id(
                path[i].name->0@,
            )),
        k < path.len() ==> path[k].known && path[k].name is Some && is_usb_id(path[k].name->0@),
    ensures
        k < path.len() ==> nearest_usb(path) == Some(path[k].name->0@),
        k == path.len() ==> nearest_usb(path) is None,
    decreases k,
{
    if k > 0 {
        let rest = path.skip(1);
        assert forall|i: int| 0 <= i < k - 1 implies !((#[trigger] rest[i]).known && rest[i].name
            is Some && is_usb_id(rest[i].name->0@)) by {
            assert(rest[i] == path[i + 1]);
        }
        if k < path.len() {
            assert(rest[k - 1] == path[k]);
        }
        assert(!is_usb(path[0]));
        law_dongle_is_the_nearest(rest, k - 1);
    }
}

} // verus!
