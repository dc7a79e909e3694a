use btkick::engine::{adapter_present, aggressive_connect, wait_connected, Action, Engine, Event, Progress};
use btkick::spammer::spam;
use btkick::tiers::{tier_name, tier_steps, Step, TIERS};

const MAC: &str = "C0:FF:EE:00:AA:01";
const UP: &str = "\tConnected: yes\n";
const DOWN: &str = "\tConnected: no\n";

/// What an action is, in one word and its texts.
fn show(a: &Action) -> String {
    match a {
        Action::Run(c) => format!("run {}", c.argv.join(" ")),
        Action::Sleep(ms) => format!("sleep {ms}"),
        Action::WriteSysfs(p, v) => format!("write {v} > {p}"),
        Action::StartScan => "start scan".to_string(),
        Action::StopScan => "stop scan".to_string(),
        Action::FindAdapter => "find adapter".to_string(),
        Action::FindUsb => "find usb".to_string(),
        Action::LoadStop => "load".to_string(),
        Action::StoreStop => "store".to_string(),
        Action::StartSpammer => "start spammer".to_string(),
        Action::JoinSpammer => "join".to_string(),
        Action::ReadClock => "clock".to_string(),
        Action::Announce(Progress::Log(m)) => format!("log {m}"),
        Action::Announce(Progress::Connected(s)) => format!("connected {s}"),
        Action::Announce(Progress::GaveUp) => "gave up".to_string(),
        Action::AnnounceElapsed => "elapsed".to_string(),
        Action::Finish => "finish".to_string(),
    }
}

/// A world in which the device comes up after so many actions, and the attempt
/// is stopped after so many actions.
struct World {
    up_at: usize,
    stop_at: usize,
    stopped: bool,
    adapter: bool,
    listed: bool,
    node: Option<String>,
    now: u64,
    seen: Vec<String>,
}

impl World {
    fn new() -> World {
        World {
            up_at: usize::MAX,
            stop_at: usize::MAX,
            stopped: false,
            adapter: true,
            listed: true,
            node: None,
            now: 0,
            seen: Vec::new(),
        }
    }

    fn answer(&mut self, a: &Action) -> Event {
        let n = self.seen.len();
        match a {
            Action::Run(c) => Event::Output(match c.argv[2].as_str() {
                "info" => (if n >= self.up_at { UP } else { DOWN }).to_string(),
                "list" => "Controller X\n".to_string(),
                "devices" if self.listed => format!("Device {MAC} Earbuds\n"),
                _ => String::new(),
            }),
            Action::FindAdapter => Event::Adapter(self.adapter),
            Action::FindUsb => Event::Usb(self.node.clone()),
            Action::LoadStop => Event::Stop(self.stopped || n >= self.stop_at),
            Action::StoreStop => {
                self.stopped = true;
                Event::Done
            }
            Action::Sleep(ms) => {
                self.now += ms * 1_000_000;
                Event::Done
            }
            Action::ReadClock => {
                self.now += 1_900_000_000;
                Event::Clock(self.now)
            }
            _ => Event::Done,
        }
    }

    fn run(&mut self) -> Vec<String> {
        let (mut engine, mut action): (Engine, Action) = aggressive_connect(MAC.to_string());
        for _ in 0..5000 {
            self.seen.push(show(&action));
            if let Action::Finish = action {
                return self.seen.clone();
            }
            let event = self.answer(&action);
            assert!(engine.can_take(&event));
            action = engine.step(event);
        }
        panic!("the attempt does not end");
    }
}

#[test]
fn connected_device_is_left_alone() {
    let mut w = World::new();
    w.up_at = 0;
    assert_eq!(
        w.run(),
        ["run 4 bluetoothctl info C0:FF:EE:00:AA:01", "connected 0.0", "finish"]
    );
}

#[test]
fn attempt_opens_and_closes_in_order() {
    let mut w = World::new();
    w.stop_at = 0;
    assert_eq!(
        w.run(),
        [
            "run 4 bluetoothctl info C0:FF:EE:00:AA:01",
            "start spammer",
            "run 4 bluetoothctl power on",
            "run 3 bluetoothctl agent on",
            "run 3 bluetoothctl default-agent",
            "run 3 bluetoothctl trust C0:FF:EE:00:AA:01",
            "log prep: powered on, agent ready, trusted",
            "load",
            "store",
            "join",
            "run 4 bluetoothctl info C0:FF:EE:00:AA:01",
            "gave up",
            "finish",
        ]
    );
}

#[test]
fn nudge_that_helps_ends_the_ladder() {
    let mut w = World::new();
    w.up_at = 11;
    let seen = w.run();
    assert_eq!(
        seen[7..],
        [
            "load",
            "load",
            "run 4 bluetoothctl info C0:FF:EE:00:AA:01",
            "log [round 1] nudge: disconnect + reconnect",
            "run 5 bluetoothctl disconnect C0:FF:EE:00:AA:01",
            "sleep 300",
            "run 6 bluetoothctl connect C0:FF:EE:00:AA:01",
            "clock",
            "clock",
            "load",
            "run 4 bluetoothctl info C0:FF:EE:00:AA:01",
            "store",
            "load",
            "store",
            "join",
            "run 4 bluetoothctl info C0:FF:EE:00:AA:01",
            "elapsed",
            "finish",
        ]
    );
}

fn logs(seen: &[String]) -> Vec<String> {
    seen.iter().filter(|s| s.starts_with("log ")).map(|s| s[4..].to_string()).collect()
}

#[test]
fn ladder_is_climbed_in_order() {
    let mut w = World::new();
    w.node = Some("3-1".to_string());
    w.stop_at = 320;
    let seen = w.run();
    let got = logs(&seen);
    assert_eq!(
        got[..13],
        [
            "prep: powered on, agent ready, trusted",
            "[round 1] nudge: disconnect + reconnect",
            "[round 1] adapter power-cycle",
            "    power off → on",
            "[round 1] re-pair (remove + scan + pair)",
            "    removing bond, scanning, re-pairing",
            "[round 1] USB deauthorize/reauthorize (soft replug)",
            "    deauthorizing USB dongle 3-1",
            "    waiting for adapter to re-enumerate",
            "[round 1] USB unbind/bind (hard replug)",
            "    unbinding USB dongle 3-1 from driver (software replug)",
            "    waiting for adapter to re-enumerate",
            "[round 2] nudge: disconnect + reconnect",
        ]
    );
    let writes: Vec<&String> = seen.iter().filter(|s| s.starts_with("write ")).collect();
    assert_eq!(writes[0], "write 0 > /sys/bus/usb/devices/3-1/authorized");
    assert_eq!(writes[1], "write 1 > /sys/bus/usb/devices/3-1/authorized");
    assert_eq!(writes[2], "write 3-1 > /sys/bus/usb/drivers/usb/unbind");
    assert_eq!(writes[3], "write 3-1 > /sys/bus/usb/drivers/usb/bind");
    assert_eq!(seen.iter().filter(|s| *s == "start spammer").count(), 1);
    assert_eq!(seen[seen.len() - 2], "gave up");
}

#[test]
fn built_in_adapter_skips_the_dongle_tiers() {
    let mut w = World::new();
    w.stop_at = 200;
    let seen = w.run();
    let got = logs(&seen);
    assert_eq!(got[7], "    no USB dongle found (built-in adapter?) — skipping");
    assert_eq!(got[9], "    no USB dongle found (built-in adapter?) — skipping");
    assert!(!seen.iter().any(|s| s.starts_with("write ")));
}

#[test]
fn lost_adapter_is_waited_for_but_not_forever() {
    let mut w = World::new();
    w.adapter = false;
    w.listed = false;
    w.node = Some("3-1".to_string());
    w.stop_at = 800;
    let seen = w.run();
    let count = |s: &str| seen.iter().filter(|x| *x == s).count();
    let round_two = seen.iter().position(|s| s.starts_with("log [round 2]")).unwrap();
    let first = &seen[..round_two];
    let looks = first.iter().filter(|s| *s == "find adapter").count();
    // 20 in the power-cycle, and 30 and 20 in each of the two replugs.
    assert_eq!(looks, 20 + 2 * (30 + 20));
    assert_eq!(first.iter().filter(|s| *s == "run 4 bluetoothctl devices").count(), 16);
    assert_eq!(first.iter().filter(|s| *s == "sleep 500").count(), 16 + 2 * 30);
    assert_eq!(first.iter().filter(|s| *s == "sleep 300").count(), 2 + 20 + 2 * 20);
    assert_eq!(count("run 4 bluetoothctl list"), 0);
}

#[test]
fn scan_is_ended_after_re_pairing() {
    let mut w = World::new();
    w.stop_at = 120;
    let seen = w.run();
    let start = seen.iter().position(|s| s == "start scan").unwrap();
    assert_eq!(
        seen[start..start + 7],
        [
            "start scan",
            "run 4 bluetoothctl devices",
            "run 10 bluetoothctl pair C0:FF:EE:00:AA:01",
            "run 3 bluetoothctl trust C0:FF:EE:00:AA:01",
            "run 8 bluetoothctl connect C0:FF:EE:00:AA:01",
            "stop scan",
            "run 3 bluetoothctl scan off",
        ]
    );
}

#[test]
fn events_out_of_turn_are_not_taken() {
    let (engine, _) = aggressive_connect(MAC.to_string());
    assert!(engine.can_take(&Event::Output(String::new())));
    assert!(!engine.can_take(&Event::Done));
    assert!(!engine.can_take(&Event::Stop(true)));
    assert!(!engine.can_take(&Event::Clock(0)));
    assert!(!engine.can_take(&Event::Usb(None)));
    assert!(!engine.can_take(&Event::Adapter(true)));
}

#[test]
fn finished_engine_stays_finished() {
    let (mut engine, _) = aggressive_connect(MAC.to_string());
    engine.step(Event::Output(UP.to_string()));
    assert!(matches!(engine.step(Event::Done), Action::Finish));
    assert!(engine.can_take(&Event::Done));
    assert!(matches!(engine.step(Event::Done), Action::Finish));
}

#[test]
fn waits_are_measured_in_seconds() {
    assert!(wait_connected(4, 10, 10));
    assert!(wait_connected(4, 10, 4_000_000_009));
    assert!(!wait_connected(4, 10, 4_000_000_010));
    assert!(wait_connected(4, 10, 0));
    assert!(!wait_connected(0, 10, 10));
    assert!(adapter_present("Controller X\n"));
    assert!(!adapter_present(" \n\t"));
}

#[test]
fn connector_asks_until_the_device_is_up() {
    let (mut s, first) = spam(MAC.to_string());
    assert_eq!(show(&first), "load");
    assert!(!s.can_take(&Event::Done));
    let mut step = |e: Event| {
        assert!(s.can_take(&e));
        show(&s.step(e))
    };
    assert_eq!(step(Event::Stop(false)), "run 6 bluetoothctl connect C0:FF:EE:00:AA:01");
    assert_eq!(step(Event::Output(UP.to_string())), "run 4 bluetoothctl info C0:FF:EE:00:AA:01");
    assert_eq!(step(Event::Output(DOWN.to_string())), "sleep 400");
    assert_eq!(step(Event::Done), "load");
    assert_eq!(step(Event::Stop(false)), "run 6 bluetoothctl connect C0:FF:EE:00:AA:01");
    assert_eq!(step(Event::Output(String::new())), "run 4 bluetoothctl info C0:FF:EE:00:AA:01");
    assert_eq!(step(Event::Output(UP.to_string())), "store");
    assert_eq!(step(Event::Done), "finish");
    assert_eq!(step(Event::Done), "finish");
}

#[test]
fn connector_ends_when_stopped() {
    let (mut s, _) = spam(MAC.to_string());
    assert_eq!(show(&s.step(Event::Stop(true))), "finish");
}

#[test]
fn tiers_are_scripts() {
    assert_eq!(TIERS, 5);
    let lens: Vec<usize> = (0..TIERS).map(|t| tier_steps(t, MAC, &Some("3-1".to_string())).len()).collect();
    assert_eq!(lens, [3, 7, 10, 10, 10]);
    assert_eq!(tier_steps(3, MAC, &None).len(), 1);
    assert_eq!(tier_name(4), "USB unbind/bind (hard replug)");
    let cycle = tier_steps(1, MAC, &None);
    assert!(matches!(&cycle[0], Step::Emit(m) if m == "power off → on"));
    assert!(matches!(cycle[2], Step::Sleep(800)));
    assert!(matches!(cycle[4], Step::AwaitAdapter { tries: 20, pause_ms: 300 }));
}

#[test]
fn device_seen_up_before_a_tier_ends_the_attempt() {
    let mut w = World::new();
    w.up_at = 10;
    let seen = w.run();
    assert_eq!(
        seen[8..],
        [
            "load",
            "run 4 bluetoothctl info C0:FF:EE:00:AA:01",
            "store",
            "join",
            "run 4 bluetoothctl info C0:FF:EE:00:AA:01",
            "elapsed",
            "finish",
        ]
    );
    assert!(!seen.iter().any(|s| s.starts_with("log [round ")));
}

#[test]
fn device_lost_again_starts_no_further_tier() {
    let (mut engine, mut action) = aggressive_connect(MAC.to_string());
    let mut looks = 0;
    let mut seen: Vec<String> = Vec::new();
    loop {
        seen.push(show(&action));
        let event = match &action {
            Action::Run(c) => {
                if c.argv[2] == "info" {
                    looks += 1;
                }
                // Up at the second look only, which is the one before the first tier.
                let up = c.argv[2] == "info" && looks == 2;
                Event::Output((if up { UP } else { DOWN }).to_string())
            }
            Action::LoadStop => Event::Stop(false),
            Action::Finish => break,
            _ => Event::Done,
        };
        assert!(engine.can_take(&event));
        action = engine.step(event);
    }
    assert!(!seen.iter().any(|s| s.starts_with("log [round ")));
    assert_eq!(seen[seen.len() - 5], "store");
    assert_eq!(seen[seen.len() - 2], "gave up");
}

#[test]
fn device_seen_up_after_a_tier_starts_no_further_tier() {
    for up_at in 0..40 {
        let mut w = World::new();
        w.up_at = up_at;
        let seen = w.run();
        // The first look that finds the device up.
        let k = seen
            .iter()
            .enumerate()
            .position(|(i, s)| i + 1 >= up_at && s.starts_with("run 4 bluetoothctl info"))
            .unwrap();
        for s in &seen[k + 1..] {
            assert!(!s.starts_with("log ") && !s.starts_with("write ") && !s.starts_with("sleep "));
        }
    }
}
