//! The default device: one line in a file of its own.

use crate::{sysfs, text};
use vstd::prelude::*;
use vstd::utf8;

verus! {

/// The bytes of a text.
pub open spec fn bytes(s: Seq<char>) -> Seq<u8> {
    utf8::encode_utf8(s)
}

/// A relative name below a directory. The empty path is where the program runs.
pub open spec fn below(dir: Seq<u8>, name: Seq<u8>) -> Seq<u8> {
    if dir.len() == 0 || dir.last() == 47 {
        dir + name
    } else {
        dir.push(47) + name
    }
}

/// A relative name below a directory.
fn join(dir: Vec<u8>, name: &str) -> (r: Vec<u8>)
    ensures
        r@ == below(dir@, bytes(name@)),
{
    let mut r: Vec<u8> = dir;
    if r.len() > 0 && r[r.len() - 1] != 47 {
        r.push(47);
    }
    let ghost start = r@;
    let b: &[u8] = name.as_bytes();
    let mut i: usize = 0;
    while i < b.len()
        invariant
            i <= b@.len(),
            r@ == start + b@.take(i as int),
        decreases b@.len() - i,
    {
        r.push(b[i]);
        assert(b@.take(i + 1) == b@.take(i as int).push(b@[i as int]));
        i += 1;
    }
    assert(b@.take(b@.len() as int) == b@);
    r
}

/// Where the program keeps its configuration, given `$XDG_CONFIG_HOME` and
/// `$HOME`.
pub open spec fn config_path(xdg: Option<Seq<u8>>, home: Option<Seq<u8>>) -> Seq<u8> {
    let base = match xdg {
        Some(dir) => dir,
        None => below(
            match home {
                Some(dir) => dir,
                None => seq![],
            },
            bytes(".config"@),
        ),
    };
    below(base, bytes("btkick"@))
}

/// The view of an optional path.
pub open spec fn opt_path(o: Option<Vec<u8>>) -> Option<Seq<u8>> {
    match o {
        Some(p) => Some(p@),
        None => None,
    }
}

/// Where the program keeps its configuration, given `$XDG_CONFIG_HOME` and
/// `$HOME`.
pub fn config_dir(xdg: Option<Vec<u8>>, home: Option<Vec<u8>>) -> (r: Vec<u8>)
    ensures
        r@ == config_path(opt_path(xdg), opt_path(home)),
{
    let base: Vec<u8> = match xdg {
        Some(dir) => dir,
        None => match home {
            Some(dir) => join(dir, ".config"),
            None => join(Vec::new(), ".config"),
        },
    };
    join(base, "btkick")
}

/// The file that holds the default device.
pub fn default_file(xdg: Option<Vec<u8>>, home: Option<Vec<u8>>) -> (r: Vec<u8>)
    ensures
        r@ == below(config_path(opt_path(xdg), opt_path(home)), bytes("default"@)),
{
    join(config_dir(xdg, home), "default")
}

/// The device that the contents of the file name.
pub open spec fn named(contents: Seq<char>) -> Option<Seq<char>> {
    let t = text::trimmed(contents);
    if t.len() == 0 {
        None
    } else {
        Some(t)
    }
}

/// The default device, given the contents of its file, if that could be read.
pub fn read_default(contents: Option<String>) -> (r: Option<String>)
    ensures
        sysfs::opt_string(r) == (match contents {
            Some(c) => named(c@),
            None => None,
        }),
{
    match contents {
        None => None,
        Some(c) => {
            let t: &str = text::trim(c.as_str());
            if t.is_empty() {
                None
            } else {
                Some(t.to_owned())
            }
        },
    }
}

/// The contents of the file that names a device.
pub open spec fn default_line(mac: Seq<char>) -> Seq<char> {
    mac + "\n"@
}

/// What to write to the file of the default device.
pub fn write_default(mac: &str) -> (r: String)
    ensures
        r@ == default_line(mac@),
{
    mac.to_owned().concat("\n")
}

/// What is read back is what was written, apart from white space around it.
pub proof fn law_default_reads_back(mac: Seq<char>)
    ensures
        named(default_line(mac)) == named(mac),
{
    reveal_strlit("\n");
    text::lemma_trim_appended_blank(mac, '\n');
    assert(default_line(mac) == mac.push('\n'));
}

/// An address without white space around it is read back as it was written.
pub proof fn law_address_reads_back(mac: Seq<char>)
    requires
        mac.len() > 0,
        !text::is_space(mac[0]),
        !text::is_space(mac.last()),
    ensures
        named(default_line(mac)) == Some(mac),
{
    law_default_reads_back(mac);
    text::lemma_trimmed_is(mac);
}

/// The configuration is kept below the directory that is given for it, whatever
/// the home directory, and else below `.config` of the home directory. A
/// directory that is not written with a slash at its end gets one; without a
/// directory the name stands alone.
pub proof fn law_where_the_configuration_is(
    dir: Seq<u8>,
    home: Option<Seq<u8>>,
    file: Seq<u8>,
    name: Seq<char>,
)
    ensures
        bytes(name) == utf8::encode_utf8(name),
        ({
            let slash: Seq<u8> = if dir.len() == 0 || dir[dir.len() - 1] == 0x2f {
                Seq::empty()
            } else {
                seq![0x2fu8]
            };
            &&& below(dir, file) == dir + slash + file
            &&& config_path(Some(dir), home) == dir + slash + utf8::encode_utf8("btkick"@)
            &&& config_path(None, Some(dir)) == config_path(
                Some(dir + slash + utf8::encode_utf8(".config"@)),
                home,
            )
        }),
        config_path(None, None) == config_path(Some(utf8::encode_utf8(".config"@)), home),
{
    let slash: Seq<u8> = if dir.len() == 0 || dir[dir.len() - 1] == 0x2f {
        Seq::empty()
    } else {
        seq![0x2fu8]
    };
    assert(dir + slash == (if slash.len() == 0 {
        dir
    } else {
        dir.push(47)
    }));
    assert(below(Seq::<u8>::empty(), bytes(".config"@)) == bytes(".config"@));
}

/// What is said of an optional path is said of what it holds.
pub proof fn law_optional_path(o: Option<Vec<u8>>)
    ensures
        opt_path(o) is Some <==> o is Some,
        o is Some ==> opt_path(o)->0 == o->0@,
{
}

/// The file names the device that stands in it, whatever white space is around
/// it, and none where there is nothing but white space. What is written is the
/// device and a line end.
pub proof fn law_file_names_the_device(before: Seq<char>, mac: Seq<char>, after: Seq<char>)
    requires
        forall|i: int| 0 <= i < before.len() ==> text::is_space(#[trigger] before[i]),
        forall|i: int| 0 <= i < after.len() ==> text::is_space(#[trigger] after[i]),
        mac.len() > 0 ==> !text::is_space(mac[0]) && !text::is_space(mac.last()),
    ensures
        mac.len() > 0 ==> named(before + mac + after) == Some(mac),
        mac.len() == 0 ==> named(before + mac + after) is None,
        default_line(mac) == mac.push('\n'),
{
    text::law_trim_takes_the_blanks_around(before, mac, after);
    reveal_strlit("\n");
    assert(default_line(mac) == mac.push('\n'));
}

} // verus!
