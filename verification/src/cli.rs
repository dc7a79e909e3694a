//! What the command line asks for.

use crate::engine::{Progress, ProgressView};
use crate::{bt, sysfs, text};
use vstd::prelude::*;

verus! {

/// What the command line asks for.
pub enum Request {
    /// The help text.
    Help,
    /// One frame of the interactive manager, as text.
    RenderTest,
    /// The interactive manager.
    Tui,
    /// A device: the one that is given, else the default.
    Device { disconnect: bool, mac: Option<String> },
}

/// What the command line asks for, its texts as sequences of characters.
pub enum RequestView {
    Help,
    RenderTest,
    Tui,
    Device { disconnect: bool, mac: Option<Seq<char>> },
}

impl View for Request {
    type V = RequestView;

    open spec fn view(&self) -> RequestView {
        match self {
            Request::Help => RequestView::Help,
            Request::RenderTest => RequestView::RenderTest,
            Request::Tui => RequestView::Tui,
            Request::Device { disconnect, mac } => RequestView::Device {
                disconnect: *disconnect,
                mac: sysfs::opt_string(*mac),
            },
        }
    }
}

/// Whether an argument gives a device: it is no flag and holds a colon.
pub open spec fn is_mac(arg: Seq<char>) -> bool {
    !(arg.len() > 0 && arg[0] == '-') && arg.contains(':')
}

/// The first argument that gives a device.
pub open spec fn first_mac(args: Seq<Seq<char>>) -> Option<Seq<char>>
    decreases args.len(),
{
    if args.len() == 0 {
        None
    } else if is_mac(args[0]) {
        Some(args[0])
    } else {
        first_mac(args.skip(1))
    }
}

/// What the given arguments ask for. Help goes before everything else, and the
/// manager before a device.
pub open spec fn requested(args: Seq<Seq<char>>) -> RequestView {
    if args.contains("-h"@) || args.contains("--help"@) {
        RequestView::Help
    } else if args.contains("--render-test"@) {
        RequestView::RenderTest
    } else if args.contains("tui"@) || args.contains("-t"@) || args.contains("--tui"@) {
        RequestView::Tui
    } else {
        RequestView::Device {
            disconnect: args.contains("-d"@) || args.contains("--disconnect"@),
            mac: first_mac(args),
        }
    }
}

/// Whether one of the arguments is `arg`.
fn has(args: &Vec<String>, arg: &str) -> (r: bool)
    ensures
        r == text::texts(args@).contains(arg@),
{
    let mut i: usize = 0;
    while i < args.len()
        invariant
            i <= args@.len(),
            forall|j: int| 0 <= j < i ==> #[trigger] text::texts(args@)[j] != arg@,
        decreases args@.len() - i,
    {
        if text::same(args[i].as_str(), arg) {
            assert(text::texts(args@)[i as int] == arg@);
            return true;
        }
        i += 1;
    }
    false
}

/// The first argument that gives a device.
fn find_mac(args: &Vec<String>) -> (r: Option<String>)
    ensures
        sysfs::opt_string(r) == first_mac(text::texts(args@)),
{
    let ghost all = text::texts(args@);
    let mut i: usize = 0;
    assert(all.skip(0) == all);
    while i < args.len()
        invariant
            i <= args@.len(),
            all == text::texts(args@),
            first_mac(all) == first_mac(all.skip(i as int)),
        decreases args@.len() - i,
    {
        let a: &str = args[i].as_str();
        proof {
            assert(all.skip(i as int)[0] == a@);
            assert(all.skip(i as int).skip(1) == all.skip(i + 1));
            reveal_strlit("-");
            assert("-"@.is_prefix_of(a@) <==> a@.len() > 0 && a@[0] == '-') by {
                if "-"@.is_prefix_of(a@) {
                    assert("-"@[0] == a@.subrange(0, 1)[0]);
                }
                if a@.len() > 0 && a@[0] == '-' {
                    assert("-"@ == a@.subrange(0, 1));
                }
            }
        }
        if !text::starts_with(a, "-") && text::has_char(a, ':') {
            return Some(args[i].clone());
        }
        i += 1;
    }
    None
}

/// What the given arguments ask for.
pub fn parse(args: &Vec<String>) -> (r: Request)
    ensures
        r@ == requested(text::texts(args@)),
{
    if has(args, "-h") || has(args, "--help") {
        Request::Help
    } else if has(args, "--render-test") {
        Request::RenderTest
    } else if has(args, "tui") || has(args, "-t") || has(args, "--tui") {
        Request::Tui
    } else {
        Request::Device {
            disconnect: has(args, "-d") || has(args, "--disconnect"),
            mac: find_mac(args),
        }
    }
}

/// The device that is meant: the one that is given, else the default.
pub fn target(mac: Option<String>, default_mac: Option<String>) -> (r: Option<String>)
    ensures
        r == (if mac is Some {
            mac
        } else {
            default_mac
        }),
{
    match mac {
        Some(m) => Some(m),
        None => default_mac,
    }
}

/// What is said after a device was told to disconnect, and whether it did, given
/// the output of `bluetoothctl info`.
pub fn disconnect_line(out: &str) -> (r: (&'static str, bool))
    ensures
        r.1 == !bt::link_up(out@),
        r.0@ == (if r.1 {
            "✔ disconnected"@
        } else {
            "✘ still connected"@
        }),
{
    if bt::is_connected(out) {
        ("✘ still connected", false)
    } else {
        ("✔ disconnected", true)
    }
}

/// The line that tells of progress on the command line.
pub open spec fn progress_text(p: ProgressView) -> Seq<char> {
    match p {
        ProgressView::Log(m) => m,
        ProgressView::Connected(s) => "\n✔ connected in "@ + s + "s"@,
        ProgressView::GaveUp => "\n✘ gave up"@,
    }
}

/// The line that tells of progress on the command line, and whether it is the
/// last.
pub fn progress_line(p: Progress) -> (r: (String, bool))
    ensures
        r.0@ == progress_text(p@),
        r.1 == !(p@ is Log),
{
    match p {
        Progress::Log(m) => (m, false),
        Progress::Connected(s) => (
            "\n✔ connected in ".to_owned().concat(s.as_str()).concat("s"),
            true,
        ),
        Progress::GaveUp => ("\n✘ gave up".to_owned(), true),
    }
}

// ---- what the command line is for -------------------------------------------
/// What is asked for is said of what the request holds.
pub proof fn law_request_view(r: Request)
    ensures
        r@ is Help <==> r is Help,
        r@ is RenderTest <==> r is RenderTest,
        r@ is Tui <==> r is Tui,
        r is Device ==> r@ is Device && r@->disconnect == r->disconnect && r@->Device_mac
            == sysfs::opt_string(r->Device_mac),
{
}

/// Help is asked for by its flags, wherever they stand; without it the frame is,
/// and without that the manager.
pub proof fn law_what_goes_first(args: Seq<Seq<char>>)
    ensures
        requested(args) is Help <==> exists|i: int|
            0 <= i < args.len() && (#[trigger] args[i] == "-h"@ || args[i] == "--help"@),
        requested(args) is RenderTest <==> !(requested(args) is Help) && exists|i: int|
            0 <= i < args.len() && #[trigger] args[i] == "--render-test"@,
        requested(args) is Tui <==> !(requested(args) is Help) && !(requested(args) is RenderTest)
            && exists|i: int|
            0 <= i < args.len() && (#[trigger] args[i] == "tui"@ || args[i] == "-t"@ || args[i]
                == "--tui"@),
        requested(args) is Device ==> (requested(args)->disconnect <==> exists|i: int|
            0 <= i < args.len() && (#[trigger] args[i] == "-d"@ || args[i] == "--disconnect"@)),
{
    assert forall|a: Seq<char>|
        #![trigger args.contains(a)]
        args.contains(a) <==> exists|i: int| 0 <= i < args.len() && #[trigger] args[i] == a by {}
}

/// Where a device is asked for, it is the first argument that is no flag and holds
/// a colon, whatever the other arguments are, and none where there is no such
/// argument.
pub proof fn law_given_device_is_taken(args: Seq<Seq<char>>, k: int)
    requires
        requested(args) is Device,
        0 <= k <= args.len(),
        forall|i: int|
            0 <= i < k ==> !((#[trigger] args[i]).contains(':') && !(args[i].len() > 0 && args[i][0]
                == '-')),
        k < args.len() ==> args[k].contains(':') && !(args[k].len() > 0 && args[k][0] == '-'),
    ensures
        k < args.len() ==> requested(args)->Device_mac == Some(args[k]),
        k == args.len() ==> requested(args)->Device_mac is None,
{
    lemma_first_mac(args, k);
}

proof fn lemma_first_mac(args: Seq<Seq<char>>, k: int)
    requires
        0 <= k <= args.len(),
        forall|i: int|
            0 <= i < k ==> !((#[trigger] args[i]).contains(':') && !(args[i].len() > 0 && args[i][0]
                == '-')),
        k < args.len() ==> args[k].contains(':') && !(args[k].len() > 0 && args[k][0] == '-'),
    ensures
        first_mac(args) == (if k < args.len() {
            Some(args[k])
        } else {
            None
        }),
    decreases k,
{
    if k > 0 {
        let rest = args.skip(1);
        assert forall|i: int| 0 <= i < k - 1 implies !((#[trigger] rest[i]).contains(':') && !(
        rest[i].len() > 0 && rest[i][0] == '-')) by {
            assert(rest[i] == args[i + 1]);
        }
        if k < args.len() {
            assert(rest[k - 1] == args[k]);
        }
        assert(!is_mac(args[0]));
        lemma_first_mac(rest, k - 1);
    }
}

/// A flag that asks for the end of the link changes nothing about which device is
/// meant, nor does an address change what is to be done with it.
pub proof fn law_flag_and_device_are_apart(args: Seq<Seq<char>>)
    requires
        requested(args) is Device,
    ensures
        requested(args.push("-d"@)) is Device,
        requested(args.push("-d"@))->disconnect,
        requested(args.push("-d"@))->Device_mac == requested(args)->Device_mac,
        requested(args.push("--disconnect"@))->Device_mac == requested(args)->Device_mac,
{
    reveal_strlit("-d");
    reveal_strlit("--disconnect");
    reveal_strlit("-h");
    reveal_strlit("--help");
    reveal_strlit("--render-test");
    reveal_strlit("tui");
    reveal_strlit("-t");
    reveal_strlit("--tui");
    assert("-d"@[1] == 'd' && "-h"@[1] == 'h' && "-t"@[1] == 't');
    lemma_flag_is_no_device(args, "-d"@);
    lemma_flag_is_no_device(args, "--disconnect"@);
    let (a, b) = (args.push("-d"@), args.push("--disconnect"@));
    assert(a[args.len() as int] == "-d"@);
    assert(b[args.len() as int] == "--disconnect"@);
    assert("--disconnect"@.len() == 12 && "--help"@.len() == 6 && "--render-test"@.len() == 13
        && "--tui"@.len() == 5);
    assert forall|x: Seq<char>| x != "-d"@ && #[trigger] a.contains(x) implies args.contains(x) by {
        let i = choose|i: int| 0 <= i < a.len() && a[i] == x;
        assert(args[i] == x);
    }
    assert forall|x: Seq<char>| x != "--disconnect"@ && #[trigger] b.contains(x) implies args.contains(
        x,
    ) by {
        let i = choose|i: int| 0 <= i < b.len() && b[i] == x;
        assert(args[i] == x);
    }
}

proof fn lemma_flag_is_no_device(args: Seq<Seq<char>>, flag: Seq<char>)
    requires
        flag.len() > 0,
        flag[0] == '-',
    ensures
        first_mac(args.push(flag)) == first_mac(args),
    decreases args.len(),
{
    let all = args.push(flag);
    if args.len() == 0 {
        assert(all[0] == flag);
        assert(all.skip(1) == Seq::<Seq<char>>::empty());
        assert(first_mac(Seq::<Seq<char>>::empty()) is None);
    } else {
        lemma_flag_is_no_device(args.skip(1), flag);
        assert(all.skip(1) == args.skip(1).push(flag));
        assert(all[0] == args[0]);
    }
}

/// What is printed of progress: a line as it is, the time that it took, or that it
/// was of no use.
pub proof fn law_progress_is_told(m: Seq<char>)
    ensures
        progress_text(ProgressView::Log(m)) == m,
        progress_text(ProgressView::Connected(m)) == seq!['\n'] + "✔ connected in "@ + m + seq!['s'],
        progress_text(ProgressView::GaveUp) == seq!['\n'] + "✘ gave up"@,
{
    reveal_strlit("\n✔ connected in ");
    reveal_strlit("✔ connected in ");
    reveal_strlit("s");
    reveal_strlit("\n✘ gave up");
    reveal_strlit("✘ gave up");
    assert("\n✔ connected in "@ == seq!['\n'] + "✔ connected in "@);
    assert("s"@ == seq!['s']);
    assert("\n✘ gave up"@ == seq!['\n'] + "✘ gave up"@);
}

} // verus!
