//! Tests of the host cross-over toggle checks, listings and launch commands.

use gos::bridge::{
    interface_names, launch_command, launch_error, sort_entries, Capability, FileEntry, HostBridge,
    HostOs,
};
use gos::types::{CrossoverToggles, GosError};

fn bridge_text(r: Result<(), GosError>) -> String {
    match r {
        Err(GosError::Bridge(m)) => m,
        other => panic!("expected a bridge refusal, got {:?}", other),
    }
}

#[test]
fn set_toggles_updates_reported_state() {
    let mut bridge = HostBridge::new(CrossoverToggles::all_off());
    assert!(bridge.toggles().is_isolated());
    bridge.set_toggles(CrossoverToggles::default());
    assert!(!bridge.toggles().is_isolated());
    assert!(bridge.toggles().files);
}

#[test]
fn all_off_toggles_refuse_every_capability() {
    let bridge = HostBridge::new(CrossoverToggles::all_off());
    assert_eq!(bridge_text(bridge.check(Capability::Files)), "files cross-over is turned off");
    assert_eq!(
        bridge_text(bridge.check(Capability::LaunchApps)),
        "launch-apps cross-over is turned off"
    );
    assert_eq!(
        bridge_text(bridge.check(Capability::Clipboard)),
        "clipboard cross-over is turned off"
    );
    assert_eq!(bridge_text(bridge.check(Capability::Devices)), "devices cross-over is turned off");
}

#[test]
fn default_toggles_open_every_capability() {
    let bridge = HostBridge::new(CrossoverToggles::default());
    assert!(bridge.check(Capability::Files).is_ok());
    assert!(bridge.check(Capability::LaunchApps).is_ok());
    assert!(bridge.check(Capability::Clipboard).is_ok());
    assert!(bridge.check(Capability::Devices).is_ok());
}

#[test]
fn one_toggle_opens_only_its_capability() {
    let mut t = CrossoverToggles::all_off();
    t.devices = true;
    let bridge = HostBridge::new(t);
    assert!(bridge.check(Capability::Devices).is_ok());
    assert!(bridge.check(Capability::Files).is_err());
    assert!(HostBridge::require(true, "x").is_ok());
    assert_eq!(bridge_text(HostBridge::require(false, "x")), "x cross-over is turned off");
}

fn entry(name: &str, is_dir: bool, size: u64) -> FileEntry {
    FileEntry { name: name.to_string(), path: format!("/t/{name}"), is_dir, size_bytes: size }
}

#[test]
fn listing_puts_directories_first_then_names() {
    let v = vec![
        entry("b.txt", false, 1),
        entry("zeta", true, 0),
        entry("a.txt", false, 2),
        entry("Alpha", true, 0),
        entry("marker.txt", false, 5),
    ];
    let s = sort_entries(v);
    let names: Vec<&str> = s.iter().map(|e| e.name.as_str()).collect();
    assert_eq!(names, vec!["Alpha", "zeta", "a.txt", "b.txt", "marker.txt"]);
    assert_eq!(s[4].size_bytes, 5);
    assert_eq!(s[4].path, "/t/marker.txt");
}

#[test]
fn listing_orders_prefixes_first_and_keeps_empty() {
    assert!(sort_entries(Vec::new()).is_empty());
    let s = sort_entries(vec![entry("ab", false, 0), entry("a", false, 0), entry("é", false, 0), entry("z", false, 0)]);
    let names: Vec<&str> = s.iter().map(|e| e.name.as_str()).collect();
    assert_eq!(names, vec!["a", "ab", "z", "é"]);
}

#[test]
fn listing_is_stable_for_equal_places() {
    let s = sort_entries(vec![entry("same", false, 1), entry("dir", true, 0), entry("same", false, 2)]);
    let got: Vec<(&str, u64)> = s.iter().map(|e| (e.name.as_str(), e.size_bytes)).collect();
    assert_eq!(got, vec![("dir", 0), ("same", 1), ("same", 2)]);
}

#[test]
fn interface_names_are_the_words() {
    let names = interface_names("lo0 gif0  stf0\nen0\ten1 \n");
    assert_eq!(names, vec!["lo0", "gif0", "stf0", "en0", "en1"]);
    assert!(interface_names("  \n ").is_empty());
}

#[test]
fn launch_commands_per_os() {
    let c = launch_command(HostOs::MacOs, "Finder");
    assert_eq!(c.program, "open");
    assert_eq!(c.args, vec!["-a", "Finder"]);
    let c = launch_command(HostOs::Windows, "notepad");
    assert_eq!(c.program, "cmd");
    assert_eq!(c.args, vec!["/C", "start", "", "notepad"]);
    let c = launch_command(HostOs::Other, "gedit");
    assert_eq!(c.program, "xdg-open");
    assert_eq!(c.args, vec!["gedit"]);
    match launch_error("Finder", "not found") {
        GosError::Bridge(m) => assert_eq!(m, "could not launch Finder: not found"),
        other => panic!("unexpected {:?}", other),
    }
}
