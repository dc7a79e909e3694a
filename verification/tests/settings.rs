use btkick::cli::{disconnect_line, parse, progress_line, target, Request};
use btkick::config::{config_dir, default_file, read_default, write_default};
use btkick::engine::Progress;

fn path(s: &str) -> Option<Vec<u8>> {
    Some(s.as_bytes().to_vec())
}

#[test]
fn configuration_follows_xdg() {
    assert_eq!(config_dir(path("/cfg"), path("/home/me")), b"/cfg/btkick");
    assert_eq!(config_dir(None, path("/home/me")), b"/home/me/.config/btkick");
    assert_eq!(default_file(None, path("/home/me/")), b"/home/me/.config/btkick/default");
    assert_eq!(default_file(None, None), b".config/btkick/default");
    assert_eq!(config_dir(path(""), None), b"btkick");
}

#[test]
fn default_reads_back() {
    assert_eq!(write_default("AA:BB"), "AA:BB\n");
    assert_eq!(read_default(Some(write_default("AA:BB"))), Some("AA:BB".to_string()));
    assert_eq!(read_default(Some(" AA:BB \n\n".to_string())), Some("AA:BB".to_string()));
    assert_eq!(read_default(Some(" \n".to_string())), None);
    assert_eq!(read_default(None), None);
}

fn asked(args: &[&str]) -> String {
    let args: Vec<String> = args.iter().map(|s| s.to_string()).collect();
    match parse(&args) {
        Request::Help => "help".to_string(),
        Request::RenderTest => "render".to_string(),
        Request::Tui => "tui".to_string(),
        Request::Device { disconnect, mac } => format!("{disconnect} {mac:?}"),
    }
}

#[test]
fn arguments_are_understood() {
    assert_eq!(asked(&[]), "false None");
    assert_eq!(asked(&["AA:BB"]), "false Some(\"AA:BB\")");
    assert_eq!(asked(&["x", "AA:BB", "CC:DD"]), "false Some(\"AA:BB\")");
    assert_eq!(asked(&["-d"]), "true None");
    assert_eq!(asked(&["AA:BB", "--disconnect"]), "true Some(\"AA:BB\")");
    assert_eq!(asked(&["-x:y"]), "false None");
    assert_eq!(asked(&["tui"]), "tui");
    assert_eq!(asked(&["AA:BB", "-t"]), "tui");
    assert_eq!(asked(&["--tui", "--render-test"]), "render");
    assert_eq!(asked(&["tui", "--render-test", "-h"]), "help");
    assert_eq!(asked(&["--help"]), "help");
}

#[test]
fn progress_is_printed() {
    let log = progress_line(Progress::Log("x".to_string()));
    assert_eq!(log, ("x".to_string(), false));
    let up = progress_line(Progress::Connected("1.7".to_string()));
    assert_eq!(up, ("\n✔ connected in 1.7s".to_string(), true));
    assert_eq!(progress_line(Progress::GaveUp), ("\n✘ gave up".to_string(), true));
}

#[test]
fn given_device_goes_before_the_default() {
    let some = |s: &str| Some(s.to_string());
    assert_eq!(target(some("AA:BB"), some("CC:DD")), some("AA:BB"));
    assert_eq!(target(None, some("CC:DD")), some("CC:DD"));
    assert_eq!(target(some("AA:BB"), None), some("AA:BB"));
    assert_eq!(target(None, None), None);
}

#[test]
fn disconnecting_is_looked_after() {
    assert_eq!(disconnect_line("\tConnected: no\n"), ("✔ disconnected", true));
    assert_eq!(disconnect_line("\tConnected: yes\n"), ("✘ still connected", false));
}
