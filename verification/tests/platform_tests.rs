//! Tests of the per-OS output parsers and command plans.

use gos::platform::{
    command_failed, format_mac, kill_switch_unavailable, mac_from_octets, output_text, random_mac, spawn_error,
    Command, Linux, MacOs, ProxyAddr, Unsupported, Windows,
};
use gos::types::GosError;

fn platform_text(e: GosError) -> String {
    match e {
        GosError::Platform(m) => m,
        other => panic!("expected a platform error, got {:?}", other),
    }
}

fn shape(c: &Command) -> (String, Vec<String>) {
    (c.program.clone(), c.args.clone())
}

fn cmd(p: &str, a: &[&str]) -> (String, Vec<String>) {
    (p.to_string(), a.iter().map(|s| s.to_string()).collect())
}

#[test]
fn linux_route_reads_the_word_after_dev() {
    let out = "default via 192.168.1.1 dev eth0 proto dhcp metric 100\n";
    assert_eq!(Linux.interface_from_route(out).unwrap(), "eth0");
    assert_eq!(
        platform_text(Linux.interface_from_route("default via 10.0.0.1 dev").unwrap_err()),
        "no default route interface"
    );
    assert!(Linux.interface_from_route("").is_err());
    assert_eq!(Linux.interface_from_route("dev dev wlan0").unwrap(), "dev");
}

#[test]
fn macos_route_reads_the_interface_line() {
    let out = "   route to: default\ndestination: default\n    gateway: 192.168.1.1\n  interface: en0\n      flags: <UP,GATEWAY>\n";
    assert_eq!(MacOs.interface_from_route(out).unwrap(), "en0");
    assert_eq!(
        platform_text(MacOs.interface_from_route("gateway: 1.2.3.4\n").unwrap_err()),
        "no default route interface"
    );
}

#[test]
fn macos_service_is_named_before_its_device() {
    let listing = "An asterisk (*) denotes that a network service is disabled.\n(1) Wi-Fi\n(Hardware Port: Wi-Fi, Device: en0)\n\n(2) Thunderbolt Bridge\n(Hardware Port: Thunderbolt Bridge, Device: bridge0)\n";
    assert_eq!(MacOs.service_for(listing, "en0").unwrap(), "Wi-Fi");
    assert_eq!(MacOs.service_for(listing, "bridge0").unwrap(), "Thunderbolt Bridge");
    assert_eq!(
        platform_text(MacOs.service_for(listing, "en7").unwrap_err()),
        "no network service found for interface en7"
    );
    assert!(MacOs.service_for("(Hardware Port: X, Device: en0)\n", "en0").is_err());
}

#[test]
fn macos_mac_reads_the_ether_line() {
    let out = "en0: flags=8863<UP,BROADCAST> mtu 1500\n\tether a4:83:e7:12:34:56 \n\tinet6 fe80::1%en0\n";
    assert_eq!(MacOs.mac_from(out, "en0").unwrap(), "a4:83:e7:12:34:56");
    assert_eq!(
        platform_text(MacOs.mac_from("lo0: flags\n", "lo0").unwrap_err()),
        "no MAC for interface lo0"
    );
}

#[test]
fn windows_interface_is_the_last_word_of_a_connected_line() {
    let out = "Admin State    State          Type             Interface Name\r\n-----------------\r\nEnabled        Disconnected   Dedicated        Wi-Fi 2\r\nEnabled        Connected      Dedicated        Ethernet\r\n";
    assert_eq!(Windows.interface_from_listing(out).unwrap(), "Ethernet");
    assert_eq!(
        platform_text(Windows.interface_from_listing("nothing here\r\n").unwrap_err()),
        "no connected interface"
    );
}

#[test]
fn windows_mac_is_the_first_csv_field() {
    let out = "\"00-15-5D-01-02-03\",\"\\Device\\Tcpip_{ABC}\"\r\n\"AA-BB\",\"x\"\r\n";
    assert_eq!(Windows.mac_from(out).unwrap(), "00-15-5D-01-02-03");
    assert_eq!(platform_text(Windows.mac_from("").unwrap_err()), "no MAC found");
}

#[test]
fn linux_mac_is_the_trimmed_file() {
    assert_eq!(Linux.mac_from("  02:11:22:33:44:55\n"), "02:11:22:33:44:55");
    assert_eq!(
        shape(&Linux.mac_read_command("eth0")),
        cmd("cat", &["/sys/class/net/eth0/address"])
    );
}

fn proxy() -> Option<ProxyAddr> {
    Some(ProxyAddr { host: "127.0.0.1".into(), port: 9150, socket: "127.0.0.1:9150".into() })
}

#[test]
fn linux_socks_plans() {
    let p = Linux.socks_plan(&proxy());
    let got: Vec<_> = p.iter().map(shape).collect();
    assert_eq!(
        got,
        vec![
            cmd("gsettings", &["set", "org.gnome.system.proxy", "mode", "'manual'"]),
            cmd("gsettings", &["set", "org.gnome.system.proxy.socks", "host", "'127.0.0.1'"]),
            cmd("gsettings", &["set", "org.gnome.system.proxy.socks", "port", "9150"]),
        ]
    );
    let got: Vec<_> = Linux.socks_plan(&None).iter().map(shape).collect();
    assert_eq!(got, vec![cmd("gsettings", &["set", "org.gnome.system.proxy", "mode", "'none'"])]);
}

#[test]
fn macos_socks_plans() {
    let got: Vec<_> = MacOs.socks_plan("Wi-Fi", &proxy()).iter().map(shape).collect();
    assert_eq!(
        got,
        vec![
            cmd("networksetup", &["-setsocksfirewallproxy", "Wi-Fi", "127.0.0.1", "9150"]),
            cmd("networksetup", &["-setsocksfirewallproxystate", "Wi-Fi", "on"]),
        ]
    );
    let got: Vec<_> = MacOs.socks_plan("Wi-Fi", &None).iter().map(shape).collect();
    assert_eq!(got, vec![cmd("networksetup", &["-setsocksfirewallproxystate", "Wi-Fi", "off"])]);
}

#[test]
fn windows_socks_plans() {
    let key = r"HKCU\Software\Microsoft\Windows\CurrentVersion\Internet Settings";
    let got: Vec<_> = Windows.socks_plan(&proxy()).iter().map(shape).collect();
    assert_eq!(
        got,
        vec![
            cmd("reg", &["add", key, "/v", "ProxyServer", "/t", "REG_SZ", "/d", "socks=127.0.0.1:9150", "/f"]),
            cmd("reg", &["add", key, "/v", "ProxyEnable", "/t", "REG_DWORD", "/d", "1", "/f"]),
        ]
    );
    let got: Vec<_> = Windows.socks_plan(&None).iter().map(shape).collect();
    assert_eq!(got, vec![cmd("reg", &["add", key, "/v", "ProxyEnable", "/t", "REG_DWORD", "/d", "0", "/f"])]);
}

#[test]
fn mac_randomization_plans() {
    let got: Vec<_> = Linux.randomize_plan("eth0", "02:00:00:00:00:01").iter().map(shape).collect();
    assert_eq!(
        got,
        vec![
            cmd("ip", &["link", "set", "dev", "eth0", "down"]),
            cmd("ip", &["link", "set", "dev", "eth0", "address", "02:00:00:00:00:01"]),
            cmd("ip", &["link", "set", "dev", "eth0", "up"]),
        ]
    );
    assert_eq!(
        shape(&MacOs.randomize_command("en0", "02:aa:bb:cc:dd:ee")),
        cmd("ifconfig", &["en0", "ether", "02:aa:bb:cc:dd:ee"])
    );
    assert_eq!(
        platform_text(Windows.randomize_error("06:00:00:00:00:00")),
        "MAC randomization on Windows needs the GOS privileged helper (candidate 06:00:00:00:00:00)"
    );
}

#[test]
fn fixed_errors() {
    assert_eq!(
        platform_text(kill_switch_unavailable()),
        "kill-switch needs the GOS privileged helper (not installed yet)"
    );
    assert_eq!(platform_text(Unsupported.error()), "unsupported platform");
    assert_eq!(
        (Linux.name(), MacOs.name(), Windows.name(), Unsupported.name()),
        ("linux", "macos", "windows", "unsupported")
    );
    assert_eq!(platform_text(spawn_error("ip", "not found")), "ip: not found");
    let args = vec!["link".to_string(), "set".to_string()];
    assert_eq!(
        platform_text(command_failed("ip", &args, b"  RTNETLINK answers: Operation not permitted\n")),
        "ip link set failed: RTNETLINK answers: Operation not permitted"
    );
    assert_eq!(platform_text(command_failed("x", &[], b"")), "x  failed: ");
    assert_eq!(output_text(b"ok\xff!"), "ok\u{FFFD}!");
}

#[test]
fn mac_text_and_random_mac() {
    assert_eq!(format_mac([0x02, 0xab, 0x00, 0x10, 0xff, 0x7e]), "02:ab:00:10:ff:7e");
    for _ in 0..50 {
        let m = random_mac();
        assert_eq!(m.len(), 17);
        let first = u8::from_str_radix(&m[0..2], 16).unwrap();
        assert_eq!(first & 0b11, 0b10, "locally administered, unicast: {m}");
        assert!(m.chars().enumerate().all(|(i, c)| if i % 3 == 2 { c == ':' } else { c.is_ascii_hexdigit() && !c.is_ascii_uppercase() }));
    }
}

#[test]
fn mac_from_octets_marks_first_octet_local_unicast() {
    assert_eq!(mac_from_octets([0x01, 0xab, 0x00, 0x10, 0xff, 0x7e]), "02:ab:00:10:ff:7e");
    assert_eq!(mac_from_octets([0xff, 0x00, 0x00, 0x00, 0x00, 0x01]), "fe:00:00:00:00:01");
    assert_eq!(mac_from_octets([0x00, 0x11, 0x22, 0x33, 0x44, 0x55]), "02:11:22:33:44:55");
    assert_eq!(mac_from_octets([0x5a, 0x11, 0x22, 0x33, 0x44, 0x55]), "5a:11:22:33:44:55");
}
