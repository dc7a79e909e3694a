//! The interventions of the escalation ladder, as scripts of single steps.

use crate::bt::{self, Command};
use crate::{number, sysfs};
use vstd::prelude::*;

verus! {

/// One step of an intervention.
pub enum Step {
    /// Tell the user what is going on.
    Emit(String),
    /// Run `bluetoothctl`.
    Run(Command),
    /// Do nothing for some milliseconds.
    Sleep(u64),
    /// Write a value to a file of sysfs.
    Write(String, String),
    /// Start scanning in the background.
    StartScan,
    /// Stop the scan that was started.
    StopScan,
    /// Look for the adapter at most `tries` times, with a pause after each look
    /// that did not find it.
    AwaitAdapter { tries: u32, pause_ms: u64 },
    /// Look for the device among the known ones in the same way.
    AwaitListed { tries: u32, pause_ms: u64 },
}

/// A step, its texts as sequences of characters.
pub enum StepView {
    Emit(Seq<char>),
    Run(Seq<Seq<char>>),
    Sleep(u64),
    Write(Seq<char>, Seq<char>),
    StartScan,
    StopScan,
    AwaitAdapter { tries: u32, pause_ms: u64 },
    AwaitListed { tries: u32, pause_ms: u64 },
}

impl View for Step {
    type V = StepView;

    open spec fn view(&self) -> StepView {
        match self {
            Step::Emit(m) => StepView::Emit(m@),
            Step::Run(c) => StepView::Run(c@),
            Step::Sleep(ms) => StepView::Sleep(*ms),
            Step::Write(path, value) => StepView::Write(path@, value@),
            Step::StartScan => StepView::StartScan,
            Step::StopScan => StepView::StopScan,
            Step::AwaitAdapter { tries, pause_ms } => StepView::AwaitAdapter {
                tries: *tries,
                pause_ms: *pause_ms,
            },
            Step::AwaitListed { tries, pause_ms } => StepView::AwaitListed {
                tries: *tries,
                pause_ms: *pause_ms,
            },
        }
    }
}

/// The views of a script.
pub open spec fn step_views(v: Seq<Step>) -> Seq<StepView> {
    Seq::new(v.len(), |i: int| v[i]@)
}

/// Running `word mac`.
pub open spec fn ask(word: Seq<char>, mac: Seq<char>, timeout_s: nat) -> StepView {
    StepView::Run(bt::on_device(word, mac, timeout_s))
}

/// Running `a b`.
pub open spec fn tell(a: Seq<char>, b: Seq<char>, timeout_s: nat) -> StepView {
    StepView::Run(bt::bt_argv(seq![a, b], timeout_s))
}

/// A step that runs `bluetoothctl a b`.
fn run2(a: &str, b: &str, timeout_s: u32) -> (r: Step)
    ensures
        r@ == tell(a@, b@, timeout_s as nat),
        r@ == ask(a@, b@, timeout_s as nat),
{
    let c = bt::bt(&[a, b], timeout_s);
    assert(c@ == bt::bt_argv(seq![a@, b@], timeout_s as nat));
    Step::Run(c)
}

/// The nudge: disconnect and connect again.
pub open spec fn nudge(mac: Seq<char>) -> Seq<StepView> {
    seq![ask("disconnect"@, mac, 5), StepView::Sleep(300), ask("connect"@, mac, 6)]
}

/// Clears a half-open link.
pub fn t_disconnect(mac: &str) -> (r: Vec<Step>)
    ensures
        step_views(r@) == nudge(mac@),
{
    let r: Vec<Step> = vec![
        run2("disconnect", mac, 5),
        Step::Sleep(300),
        run2("connect", mac, 6),
    ];
    assert(step_views(r@) == nudge(mac@));
    r
}

/// Waiting for the adapter to be back.
pub open spec fn adapter_wait() -> StepView {
    StepView::AwaitAdapter { tries: 20, pause_ms: 300 }
}

/// Waits for the adapter to be back.
pub fn wait_adapter() -> (r: Step)
    ensures
        r@ == adapter_wait(),
{
    Step::AwaitAdapter { tries: 20, pause_ms: 300 }
}

/// The power-cycle of the adapter.
pub open spec fn power_cycle(mac: Seq<char>) -> Seq<StepView> {
    seq![
        StepView::Emit("power off → on"@),
        tell("power"@, "off"@, 4),
        StepView::Sleep(800),
        tell("power"@, "on"@, 4),
        adapter_wait(),
        ask("trust"@, mac, 3),
        ask("connect"@, mac, 6),
    ]
}

/// Turns the adapter off and on.
pub fn t_power_cycle(mac: &str) -> (r: Vec<Step>)
    ensures
        step_views(r@) == power_cycle(mac@),
{
    let r: Vec<Step> = vec![
        Step::Emit("power off → on".to_owned()),
        run2("power", "off", 4),
        Step::Sleep(800),
        run2("power", "on", 4),
        wait_adapter(),
        run2("trust", mac, 3),
        run2("connect", mac, 6),
    ];
    assert(step_views(r@) == power_cycle(mac@));
    r
}

/// Pairing anew.
pub open spec fn repair(mac: Seq<char>) -> Seq<StepView> {
    seq![
        StepView::Emit("removing bond, scanning, re-pairing"@),
        ask("remove"@, mac, 5),
        StepView::Sleep(300),
        StepView::StartScan,
        StepView::AwaitListed { tries: 16, pause_ms: 500 },
        ask("pair"@, mac, 10),
        ask("trust"@, mac, 3),
        ask("connect"@, mac, 8),
        StepView::StopScan,
        tell("scan"@, "off"@, 3),
    ]
}

/// Removes the bond, finds the device again and pairs anew.
pub fn t_repair(mac: &str) -> (r: Vec<Step>)
    ensures
        step_views(r@) == repair(mac@),
{
    let r: Vec<Step> = vec![
        Step::Emit("removing bond, scanning, re-pairing".to_owned()),
        run2("remove", mac, 5),
        Step::Sleep(300),
        Step::StartScan,
        Step::AwaitListed { tries: 16, pause_ms: 500 },
        run2("pair", mac, 10),
        run2("trust", mac, 3),
        run2("connect", mac, 8),
        Step::StopScan,
        run2("scan", "off", 3),
    ];
    assert(step_views(r@) == repair(mac@));
    r
}

/// Bringing the adapter back after its dongle was cut off.
pub open spec fn recovery(mac: Seq<char>) -> Seq<StepView> {
    seq![
        StepView::Emit("waiting for adapter to re-enumerate"@),
        StepView::AwaitAdapter { tries: 30, pause_ms: 500 },
        tell("power"@, "on"@, 4),
        adapter_wait(),
        ask("trust"@, mac, 3),
        ask("connect"@, mac, 8),
    ]
}

/// Appends the steps that bring the adapter back after its dongle was cut off.
pub fn recover_adapter(mac: &str, script: &mut Vec<Step>)
    ensures
        step_views(final(script)@) == step_views(old(script)@) + recovery(mac@),
{
    script.push(Step::Emit("waiting for adapter to re-enumerate".to_owned()));
    script.push(Step::AwaitAdapter { tries: 30, pause_ms: 500 });
    script.push(run2("power", "on", 4));
    script.push(wait_adapter());
    script.push(run2("trust", mac, 3));
    script.push(run2("connect", mac, 8));
    assert(step_views(script@) == step_views(old(script)@) + recovery(mac@));
}

/// What is done about a dongle where there is none.
pub open spec fn no_dongle() -> Seq<StepView> {
    seq![StepView::Emit("no USB dongle found (built-in adapter?) — skipping"@)]
}

/// Says that there is no dongle.
fn skip_dongle() -> (r: Vec<Step>)
    ensures
        step_views(r@) == no_dongle(),
{
    let r: Vec<Step> = vec![
        Step::Emit("no USB dongle found (built-in adapter?) — skipping".to_owned()),
    ];
    assert(step_views(r@) == no_dongle());
    r
}

/// The file that tells whether a USB device may be used.
pub open spec fn authorized(node: Seq<char>) -> Seq<char> {
    sysfs::usb_dir(node) + "/authorized"@
}

/// The soft replug.
pub open spec fn usb_auth(mac: Seq<char>, node: Option<Seq<char>>) -> Seq<StepView> {
    match node {
        None => no_dongle(),
        Some(node) => seq![
            StepView::Emit("deauthorizing USB dongle "@ + node),
            StepView::Write(authorized(node), "0"@),
            StepView::Sleep(1200),
            StepView::Write(authorized(node), "1"@),
        ] + recovery(mac),
    }
}

/// Takes the dongle's authorization and gives it back: a soft replug.
pub fn t_usb_auth(mac: &str, node: &Option<String>) -> (r: Vec<Step>)
    ensures
        step_views(r@) == usb_auth(mac@, sysfs::opt_string(*node)),
{
    match node {
        None => skip_dongle(),
        Some(node) => {
            let path: String = sysfs::usb_device_dir(node.as_str()).concat("/authorized");
            let mut r: Vec<Step> = vec![
                Step::Emit("deauthorizing USB dongle ".to_owned().concat(node.as_str())),
                Step::Write(path.clone(), "0".to_owned()),
                Step::Sleep(1200),
                Step::Write(path, "1".to_owned()),
            ];
            let ghost first = step_views(r@);
            recover_adapter(mac, &mut r);
            assert(first == seq![
                StepView::Emit("deauthorizing USB dongle "@ + node@),
                StepView::Write(authorized(node@), "0"@),
                StepView::Sleep(1200),
                StepView::Write(authorized(node@), "1"@),
            ]);
            r
        },
    }
}

/// The hard replug.
pub open spec fn usb_rebind(mac: Seq<char>, node: Option<Seq<char>>) -> Seq<StepView> {
    match node {
        None => no_dongle(),
        Some(node) => seq![
            StepView::Emit(
                "unbinding USB dongle "@ + node + " from driver (software replug)"@,
            ),
            StepView::Write(sysfs::USB_UNBIND@, node),
            StepView::Sleep(1500),
            StepView::Write(sysfs::USB_BIND@, node),
        ] + recovery(mac),
    }
}

/// Takes the dongle from its driver and gives it back: a hard replug.
pub fn t_usb_rebind(mac: &str, node: &Option<String>) -> (r: Vec<Step>)
    ensures
        step_views(r@) == usb_rebind(mac@, sysfs::opt_string(*node)),
{
    match node {
        None => skip_dongle(),
        Some(node) => {
            let note: String = "unbinding USB dongle ".to_owned().concat(node.as_str()).concat(
                " from driver (software replug)",
            );
            let mut r: Vec<Step> = vec![
                Step::Emit(note),
                Step::Write(sysfs::USB_UNBIND.to_owned(), node.clone()),
                Step::Sleep(1500),
                Step::Write(sysfs::USB_BIND.to_owned(), node.clone()),
            ];
            let ghost first = step_views(r@);
            recover_adapter(mac, &mut r);
            assert(first == seq![
                StepView::Emit(
                    "unbinding USB dongle "@ + node@ + " from driver (software replug)"@,
                ),
                StepView::Write(sysfs::USB_UNBIND@, node@),
                StepView::Sleep(1500),
                StepView::Write(sysfs::USB_BIND@, node@),
            ]);
            r
        },
    }
}

/// The number of tiers.
pub const TIERS: usize = 5;

/// The name of a tier. They are ordered from the lightest to the heaviest.
pub open spec fn name_of(tier: int) -> Seq<char> {
    if tier == 0 {
        "nudge: disconnect + reconnect"@
    } else if tier == 1 {
        "adapter power-cycle"@
    } else if tier == 2 {
        "re-pair (remove + scan + pair)"@
    } else if tier == 3 {
        "USB deauthorize/reauthorize (soft replug)"@
    } else {
        "USB unbind/bind (hard replug)"@
    }
}

/// The name of a tier.
pub fn tier_name(tier: usize) -> (r: &'static str)
    ensures
        r@ == name_of(tier as int),
{
    match tier {
        0 => "nudge: disconnect + reconnect",
        1 => "adapter power-cycle",
        2 => "re-pair (remove + scan + pair)",
        3 => "USB deauthorize/reauthorize (soft replug)",
        _ => "USB unbind/bind (hard replug)",
    }
}

/// Whether a tier works on the USB dongle.
pub open spec fn on_dongle(tier: int) -> bool {
    tier >= 3
}

/// The steps of a tier.
pub open spec fn steps_of(
    tier: int,
    mac: Seq<char>,
    node: Option<Seq<char>>,
) -> Seq<StepView> {
    if tier == 0 {
        nudge(mac)
    } else if tier == 1 {
        power_cycle(mac)
    } else if tier == 2 {
        repair(mac)
    } else if tier == 3 {
        usb_auth(mac, node)
    } else {
        usb_rebind(mac, node)
    }
}

/// The steps of a tier.
pub fn tier_steps(tier: usize, mac: &str, node: &Option<String>) -> (r: Vec<Step>)
    ensures
        step_views(r@) == steps_of(tier as int, mac@, sysfs::opt_string(*node)),
{
    match tier {
        0 => t_disconnect(mac),
        1 => t_power_cycle(mac),
        2 => t_repair(mac),
        3 => t_usb_auth(mac, node),
        _ => t_usb_rebind(mac, node),
    }
}

/// Whether a step that looks for something looks at least once.
pub open spec fn looks(s: StepView) -> bool {
    match s {
        StepView::AwaitAdapter { tries, .. } => tries > 0,
        StepView::AwaitListed { tries, .. } => tries > 0,
        _ => true,
    }
}

/// Every tier has something to do, and whatever a tier looks for it looks for
/// at least once.
pub proof fn lemma_steps_look(tier: int, mac: Seq<char>, node: Option<Seq<char>>)
    ensures
        steps_of(tier, mac, node).len() > 0,
        forall|i: int|
            0 <= i < steps_of(tier, mac, node).len() ==> looks(
                #[trigger] steps_of(tier, mac, node)[i],
            ),
{
}

/// A built-in adapter is left alone by the tiers that replug a dongle: all that
/// they do is say so.
pub proof fn law_built_in_adapter_is_skipped(tier: int, mac: Seq<char>)
    requires
        on_dongle(tier),
    ensures
        steps_of(tier, mac, None) == no_dongle(),
{
}

/// Only the tiers that work on the dongle write to sysfs.
pub proof fn law_only_dongle_tiers_write(tier: int, mac: Seq<char>, node: Option<Seq<char>>, i: int)
    requires
        0 <= tier < TIERS,
        0 <= i < steps_of(tier, mac, node).len(),
        steps_of(tier, mac, node)[i] is Write,
    ensures
        on_dongle(tier),
        node is Some,
{
}

/// Every tier that does anything at all ends by asking for the connection; the
/// one that scans then ends its scan.
pub proof fn law_tiers_ask_for_the_connection(
    tier: int,
    mac: Seq<char>,
    node: Option<Seq<char>>,
)
    requires
        0 <= tier < TIERS,
        on_dongle(tier) ==> node is Some,
    ensures
        exists|i: int, t: nat|
            0 <= i < steps_of(tier, mac, node).len() && #[trigger] steps_of(tier, mac, node)[i]
                == #[trigger] ask("connect"@, mac, t) && (forall|j: int|
                i < j < steps_of(tier, mac, node).len() ==> {
                    ||| #[trigger] steps_of(tier, mac, node)[j] is StopScan
                    ||| steps_of(tier, mac, node)[j] == tell("scan"@, "off"@, 3)
                }),
{
    let s = steps_of(tier, mac, node);
    let t: nat = if tier == 0 || tier == 1 {
        6
    } else {
        8
    };
    let i: int = if tier == 2 {
        7
    } else {
        s.len() - 1
    };
    assert(s[i] == ask("connect"@, mac, t));
}

// ---- what the tiers are for -------------------------------------------------
/// What is said of a step is said of what it holds.
pub proof fn law_step_views(v: Seq<Step>, i: int)
    requires
        0 <= i < v.len(),
    ensures
        step_views(v).len() == v.len(),
        match v[i] {
            Step::Emit(m) => step_views(v)[i] == StepView::Emit(m@),
            Step::Run(c) => step_views(v)[i] == StepView::Run(c@),
            Step::Sleep(ms) => step_views(v)[i] == StepView::Sleep(ms),
            Step::Write(p, x) => step_views(v)[i] == StepView::Write(p@, x@),
            Step::StartScan => step_views(v)[i] is StartScan,
            Step::StopScan => step_views(v)[i] is StopScan,
            Step::AwaitAdapter { tries, pause_ms } => step_views(v)[i] == (StepView::AwaitAdapter {
                tries,
                pause_ms,
            }),
            Step::AwaitListed { tries, pause_ms } => step_views(v)[i] == (StepView::AwaitListed {
                tries,
                pause_ms,
            }),
        },
{
}

/// The five tiers by name, from the lightest to the heaviest.
pub proof fn law_tier_names()
    ensures
        name_of(0) == "nudge: disconnect + reconnect"@,
        name_of(1) == "adapter power-cycle"@,
        name_of(2) == "re-pair (remove + scan + pair)"@,
        name_of(3) == "USB deauthorize/reauthorize (soft replug)"@,
        name_of(4) == "USB unbind/bind (hard replug)"@,
        forall|t: int| #[trigger] on_dongle(t) <==> t == 3 || t == 4 || t > 4,
{
}

/// The words of a command that a step runs.
proof fn lemma_words(a: Seq<char>, b: Seq<char>, t: nat)
    ensures
        tell(a, b, t) == StepView::Run(seq![number::decimal(t), "bluetoothctl"@, a, b]),
        ask(a, b, t) == StepView::Run(seq![number::decimal(t), "bluetoothctl"@, a, b]),
{
    assert(bt::bt_argv(seq![a, b], t) == seq![number::decimal(t), "bluetoothctl"@, a, b]);
}

/// What the nudge, the power-cycle and the re-pairing do, step by step, whatever
/// dongle there is.
pub proof fn law_tiers_without_a_dongle(mac: Seq<char>, node: Option<Seq<char>>)
    ensures
        steps_of(0, mac, node) == seq![
            StepView::Run(seq!["5"@, "bluetoothctl"@, "disconnect"@, mac]),
            StepView::Sleep(300),
            StepView::Run(seq!["6"@, "bluetoothctl"@, "connect"@, mac]),
        ],
        steps_of(1, mac, node) == seq![
            StepView::Emit("power off → on"@),
            StepView::Run(seq!["4"@, "bluetoothctl"@, "power"@, "off"@]),
            StepView::Sleep(800),
            StepView::Run(seq!["4"@, "bluetoothctl"@, "power"@, "on"@]),
            StepView::AwaitAdapter { tries: 20, pause_ms: 300 },
            StepView::Run(seq!["3"@, "bluetoothctl"@, "trust"@, mac]),
            StepView::Run(seq!["6"@, "bluetoothctl"@, "connect"@, mac]),
        ],
        steps_of(2, mac, node) == seq![
            StepView::Emit("removing bond, scanning, re-pairing"@),
            StepView::Run(seq!["5"@, "bluetoothctl"@, "remove"@, mac]),
            StepView::Sleep(300),
            StepView::StartScan,
            StepView::AwaitListed { tries: 16, pause_ms: 500 },
            StepView::Run(seq!["10"@, "bluetoothctl"@, "pair"@, mac]),
            StepView::Run(seq!["3"@, "bluetoothctl"@, "trust"@, mac]),
            StepView::Run(seq!["8"@, "bluetoothctl"@, "connect"@, mac]),
            StepView::StopScan,
            StepView::Run(seq!["3"@, "bluetoothctl"@, "scan"@, "off"@]),
        ],
{
    number::lemma_small_numbers();
    lemma_words("disconnect"@, mac, 5);
    lemma_words("connect"@, mac, 6);
    lemma_words("connect"@, mac, 8);
    lemma_words("power"@, "off"@, 4);
    lemma_words("power"@, "on"@, 4);
    lemma_words("trust"@, mac, 3);
    lemma_words("remove"@, mac, 5);
    lemma_words("pair"@, mac, 10);
    lemma_words("scan"@, "off"@, 3);
}

/// What the two replugs do, step by step: the dongle is cut off, given back after a
/// while, and the adapter is brought up again.
pub proof fn law_tiers_on_a_dongle(mac: Seq<char>, node: Seq<char>)
    ensures
        ({
            let file = "/sys/bus/usb/devices/"@ + node + "/authorized"@;
            steps_of(3, mac, Some(node)) == seq![
                StepView::Emit("deauthorizing USB dongle "@ + node),
                StepView::Write(file, "0"@),
                StepView::Sleep(1200),
                StepView::Write(file, "1"@),
                StepView::Emit("waiting for adapter to re-enumerate"@),
                StepView::AwaitAdapter { tries: 30, pause_ms: 500 },
                StepView::Run(seq!["4"@, "bluetoothctl"@, "power"@, "on"@]),
                StepView::AwaitAdapter { tries: 20, pause_ms: 300 },
                StepView::Run(seq!["3"@, "bluetoothctl"@, "trust"@, mac]),
                StepView::Run(seq!["8"@, "bluetoothctl"@, "connect"@, mac]),
            ]
        }),
        steps_of(4, mac, Some(node)) == seq![
            StepView::Emit("unbinding USB dongle "@ + node + " from driver (software replug)"@),
            StepView::Write("/sys/bus/usb/drivers/usb/unbind"@, node),
            StepView::Sleep(1500),
            StepView::Write("/sys/bus/usb/drivers/usb/bind"@, node),
            StepView::Emit("waiting for adapter to re-enumerate"@),
            StepView::AwaitAdapter { tries: 30, pause_ms: 500 },
            StepView::Run(seq!["4"@, "bluetoothctl"@, "power"@, "on"@]),
            StepView::AwaitAdapter { tries: 20, pause_ms: 300 },
            StepView::Run(seq!["3"@, "bluetoothctl"@, "trust"@, mac]),
            StepView::Run(seq!["8"@, "bluetoothctl"@, "connect"@, mac]),
        ],
        steps_of(3, mac, None) == seq![
            StepView::Emit("no USB dongle found (built-in adapter?) — skipping"@),
        ],
        steps_of(4, mac, None) == steps_of(3, mac, None),
{
    number::lemma_small_numbers();
    lemma_words("connect"@, mac, 8);
    lemma_words("power"@, "on"@, 4);
    lemma_words("trust"@, mac, 3);
    let file = "/sys/bus/usb/devices/"@ + node + "/authorized"@;
    assert(authorized(node) == file);
    assert(steps_of(3, mac, Some(node)) == seq![
        StepView::Emit("deauthorizing USB dongle "@ + node),
        StepView::Write(file, "0"@),
        StepView::Sleep(1200),
        StepView::Write(file, "1"@),
    ] + recovery(mac));
}

/// Whatever a tier cuts off it gives back: a dongle that loses its authorization or
/// its driver gets it again, an adapter that is turned off is turned on, and a scan
/// that is started is ended.
pub proof fn law_what_is_cut_off_comes_back(
    tier: int,
    mac: Seq<char>,
    node: Option<Seq<char>>,
    i: int,
)
    requires
        0 <= tier < 5,
        0 <= i < steps_of(tier, mac, node).len(),
        mac != "off"@,
    ensures
        ({
            let s = steps_of(tier, mac, node);
            &&& s[i] is Write && s[i]->Write_1 == "0"@ && tier == 3 ==> exists|j: int|
                i < j < s.len() && #[trigger] s[j] == StepView::Write(s[i]->Write_0, "1"@)
            &&& s[i] is Write && s[i]->Write_0 == "/sys/bus/usb/drivers/usb/unbind"@ && tier == 4
                ==> exists|j: int|
                i < j < s.len() && #[trigger] s[j] == StepView::Write(
                    "/sys/bus/usb/drivers/usb/bind"@,
                    s[i]->Write_1,
                )
            &&& s[i] == StepView::Run(seq!["4"@, "bluetoothctl"@, "power"@, "off"@]) ==> exists|
                j: int,
            |
                i < j < s.len() && #[trigger] s[j] == StepView::Run(
                    seq!["4"@, "bluetoothctl"@, "power"@, "on"@],
                )
            &&& s[i] is StartScan ==> exists|j: int| i < j < s.len() && #[trigger] s[j] is StopScan
        }),
{
    law_tiers_without_a_dongle(mac, node);
    let s = steps_of(tier, mac, node);
    if tier >= 3 && node is Some {
        law_tiers_on_a_dongle(mac, node->0);
        reveal_strlit("/sys/bus/usb/drivers/usb/unbind");
        reveal_strlit("/sys/bus/usb/drivers/usb/bind");
        reveal_strlit("0");
        reveal_strlit("1");
        reveal_strlit("on");
        reveal_strlit("off");
        assert("on"@.len() == 2 && "off"@.len() == 3);
        assert("0"@[0] == '0' && "1"@[0] == '1');
        assert("/sys/bus/usb/drivers/usb/unbind"@.len() != "/sys/bus/usb/drivers/usb/bind"@.len());
        assert(s[3] is Write);
        lemma_no_power_off(mac);
    } else if tier >= 3 {
        law_tiers_on_a_dongle(mac, mac);
    } else if tier == 1 {
        reveal_strlit("on");
        reveal_strlit("off");
        assert("on"@.len() == 2 && "off"@.len() == 3);
        lemma_no_power_off(mac);
        lemma_not_power_off("connect"@, mac, "6"@);
        assert(s[3] == StepView::Run(seq!["4"@, "bluetoothctl"@, "power"@, "on"@]));
    } else if tier == 2 {
        assert(s[8] is StopScan);
        lemma_not_power_off("remove"@, mac, "5"@);
        lemma_not_power_off("pair"@, mac, "10"@);
        lemma_not_power_off("trust"@, mac, "3"@);
        lemma_not_power_off("connect"@, mac, "8"@);
        reveal_strlit("scan");
        reveal_strlit("power");
        assert("scan"@.len() == 4 && "power"@.len() == 5);
        assert(seq!["3"@, "bluetoothctl"@, "scan"@, "off"@][2] == "scan"@);
        assert(seq!["4"@, "bluetoothctl"@, "power"@, "off"@][2] == "power"@);
    } else {
        lemma_not_power_off("disconnect"@, mac, "5"@);
        lemma_not_power_off("connect"@, mac, "6"@);
    }
}

proof fn lemma_not_power_off(word: Seq<char>, mac: Seq<char>, t: Seq<char>)
    requires
        mac != "off"@,
    ensures
        seq![t, "bluetoothctl"@, word, mac] != seq!["4"@, "bluetoothctl"@, "power"@, "off"@],
{
    assert(seq![t, "bluetoothctl"@, word, mac][3] == mac);
    assert(seq!["4"@, "bluetoothctl"@, "power"@, "off"@][3] == "off"@);
}

proof fn lemma_no_power_off(mac: Seq<char>)
    requires
        mac != "off"@,
        "on"@ != "off"@,
    ensures
        seq!["4"@, "bluetoothctl"@, "power"@, "on"@] != seq!["4"@, "bluetoothctl"@, "power"@, "off"@],
        seq!["3"@, "bluetoothctl"@, "trust"@, mac] != seq!["4"@, "bluetoothctl"@, "power"@, "off"@],
        seq!["8"@, "bluetoothctl"@, "connect"@, mac] != seq!["4"@, "bluetoothctl"@, "power"@, "off"@],
{
    lemma_not_power_off("power"@, "on"@, "4"@);
    lemma_not_power_off("trust"@, mac, "3"@);
    lemma_not_power_off("connect"@, mac, "8"@);
}

} // verus!
