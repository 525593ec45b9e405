//! Tests of the privacy engine's transitions and of the leak report.

use gos::engine::{assemble_leak_report, tor_unavailable, PrivacyEngine};
use gos::net::IpInfo;
use gos::settings::DohProvider;
use gos::types::{ConnectionState, GosError, LeakVerdict};

fn info(ip: &str, country: Option<&str>) -> IpInfo {
    IpInfo { ip: ip.to_string(), country: country.map(|c| c.to_string()), country_code: None }
}

fn privacy_text(e: GosError) -> String {
    match e {
        GosError::Privacy(m) => m,
        other => panic!("expected a privacy error, got {:?}", other),
    }
}

#[test]
fn new_engine_is_disconnected_with_doh_on() {
    let e: PrivacyEngine<u8> = PrivacyEngine::new("node".to_string());
    let s = e.status();
    assert_eq!(s.state, ConnectionState::Disconnected);
    assert!(s.doh_enabled);
    assert!(!s.tor_enabled);
    assert_eq!(s.node_id, "node");
    assert_eq!(e.doh_provider, DohProvider::Cloudflare);
    assert!(e.tor.is_none());
}

#[test]
fn set_doh_is_reflected_in_status() {
    let mut e: PrivacyEngine<u8> = PrivacyEngine::new("n".to_string());
    let s = e.set_doh(false, DohProvider::Google);
    assert!(!s.doh_enabled);
    assert_eq!(e.doh_provider, DohProvider::Google);
    assert!(!e.status().doh_enabled);
    let (enabled, provider, exit) = e.leak_test_inputs();
    assert!(!enabled);
    assert_eq!(provider, DohProvider::Google);
    assert!(exit.is_none());
}

#[test]
fn leak_doh_probe_follows_the_doh_setting() {
    let mut e: PrivacyEngine<u8> = PrivacyEngine::new("n".to_string());
    assert_eq!(e.leak_doh_probe(), Some((DohProvider::Cloudflare, "example.com".to_string())));
    e.set_doh(true, DohProvider::Quad9);
    assert_eq!(e.leak_doh_probe(), Some((DohProvider::Quad9, "example.com".to_string())));
    e.set_doh(false, DohProvider::Google);
    assert_eq!(e.leak_doh_probe(), None);
}

#[test]
fn tor_lifecycle_start_identity_stop() {
    let mut e: PrivacyEngine<u8> = PrivacyEngine::new("n".to_string());
    e.begin_tor_bootstrap();
    assert_eq!(e.status.state, ConnectionState::Connecting);
    assert_eq!(e.status.message.as_deref(), Some("bootstrapping Tor\u{2026}"));

    let s = e.complete_tor_bootstrap(7, Some(info("5.6.7.8", Some("Iceland"))));
    assert_eq!(s.state, ConnectionState::Connected);
    assert!(s.tor_enabled);
    assert_eq!(s.exit_ip.as_deref(), Some("5.6.7.8"));
    assert_eq!(s.exit_country.as_deref(), Some("Iceland"));
    assert_eq!(s.message.as_deref(), Some("Tor connected"));
    assert_eq!(e.running_tor().ok(), Some(&7));

    let s = e.apply_new_identity(info("9.9.9.1", None));
    assert_eq!(s.exit_ip.as_deref(), Some("9.9.9.1"));
    assert_eq!(s.exit_country, None);
    assert_eq!(s.message.as_deref(), Some("new identity"));

    let s = e.stop_tor();
    assert_eq!(s.state, ConnectionState::Disconnected);
    assert!(!s.tor_enabled);
    assert_eq!(s.exit_ip, None);
    assert_eq!(s.exit_country, None);
    assert_eq!(s.message.as_deref(), Some("Tor stopped"));
    assert_eq!(privacy_text(e.running_tor().err().unwrap()), "Tor is not running");
}

#[test]
fn bootstrap_without_measured_exit_keeps_old_exit() {
    let mut e: PrivacyEngine<u8> = PrivacyEngine::new("n".to_string());
    e.status.exit_ip = Some("1.1.1.9".to_string());
    let s = e.complete_tor_bootstrap(1, None);
    assert_eq!(s.exit_ip.as_deref(), Some("1.1.1.9"));
    assert!(s.tor_enabled);
}

#[test]
fn tor_unavailable_error_text() {
    assert_eq!(privacy_text(tor_unavailable()), "Tor support was not built into this binary");
}

#[test]
fn leak_report_protected_when_masked_and_doh_resolves() {
    let rep = assemble_leak_report(
        DohProvider::Quad9,
        None,
        Ok(info("1.2.3.4", None)),
        Some(Ok(info("5.6.7.8", None))),
        Some(Ok(2)),
        42,
    );
    assert_eq!(rep.real_ip.as_deref(), Some("1.2.3.4"));
    assert_eq!(rep.exit_ip.as_deref(), Some("5.6.7.8"));
    assert!(rep.ip_masked);
    assert!(rep.doh_active);
    assert_eq!(rep.verdict, LeakVerdict::Protected);
    assert_eq!(
        rep.details,
        vec!["DoH OK via Quad9: 2 address(es)", "real IP is hidden behind the exit node"]
    );
    assert_eq!(rep.checked_at_ms, 42);
}

#[test]
fn leak_report_exposed_without_tor_or_doh() {
    let rep = assemble_leak_report(DohProvider::Cloudflare, None, Ok(info("1.2.3.4", None)), None, None, 7);
    assert_eq!(rep.exit_ip, None);
    assert!(!rep.ip_masked);
    assert!(!rep.doh_active);
    assert_eq!(rep.verdict, LeakVerdict::Exposed);
    assert_eq!(rep.details, vec!["DoH disabled", "real IP is visible \u{2014} not masked"]);
}

#[test]
fn leak_report_exposed_with_same_ip_even_with_doh() {
    let rep = assemble_leak_report(
        DohProvider::Google,
        Some("1.2.3.4".to_string()),
        Ok(info("1.2.3.4", None)),
        None,
        Some(Ok(13)),
        1,
    );
    assert_eq!(rep.exit_ip.as_deref(), Some("1.2.3.4"));
    assert!(!rep.ip_masked);
    assert!(rep.doh_active);
    assert_eq!(rep.verdict, LeakVerdict::Exposed);
    assert_eq!(rep.details[0], "DoH OK via Google: 13 address(es)");
}

#[test]
fn leak_report_notes_every_failure_in_order() {
    let rep = assemble_leak_report(
        DohProvider::Cloudflare,
        Some("8.8.4.4".to_string()),
        Err(GosError::Privacy("direct connect: refused".to_string())),
        Some(Err(GosError::Privacy("Tor connect: timeout".to_string()))),
        Some(Err(GosError::Privacy("DoH returned no A records".to_string()))),
        0,
    );
    assert_eq!(rep.real_ip, None);
    assert_eq!(rep.exit_ip.as_deref(), Some("8.8.4.4"));
    assert!(rep.ip_masked, "unknown real IP with a known exit counts as masked");
    assert!(!rep.doh_active);
    assert_eq!(rep.verdict, LeakVerdict::Partial);
    assert_eq!(
        rep.details,
        vec![
            "could not determine real IP: privacy engine: direct connect: refused",
            "Tor exit check failed: privacy engine: Tor connect: timeout",
            "DoH check failed: privacy engine: DoH returned no A records",
            "real IP is hidden behind the exit node",
        ]
    );
}

#[test]
fn leak_report_fails_closed_when_nothing_is_known() {
    let rep = assemble_leak_report(
        DohProvider::Cloudflare,
        None,
        Err(GosError::Privacy("x".to_string())),
        None,
        None,
        0,
    );
    assert!(!rep.ip_masked);
    assert_eq!(rep.verdict, LeakVerdict::Exposed);
}
