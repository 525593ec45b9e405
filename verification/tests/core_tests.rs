//! Tests of the shared types, settings defaults, timestamps and status.

use gos::settings::{DohProvider, GosSettings};
use gos::types::{CrossoverToggles, GosError, PrivacyStatus};

#[test]
fn crossover_toggles_default_is_not_isolated() {
    let toggles = CrossoverToggles::default();
    let isolated = toggles.is_isolated();
    assert!(!isolated, "default toggles should not be isolated");
    assert!(toggles.files);
    assert!(toggles.launch_apps);
    assert!(toggles.clipboard);
    assert!(toggles.devices);
}

#[test]
fn crossover_toggles_all_off_is_isolated() {
    let toggles = CrossoverToggles::all_off();
    let isolated = toggles.is_isolated();
    assert!(isolated, "all_off toggles should be isolated");
    assert!(!toggles.files);
    assert!(!toggles.launch_apps);
    assert!(!toggles.clipboard);
    assert!(!toggles.devices);
}

#[test]
fn crossover_is_isolated_reflects_partial_state() {
    let mut toggles = CrossoverToggles::all_off();
    assert!(toggles.is_isolated());
    toggles.clipboard = true;
    assert!(
        !toggles.is_isolated(),
        "enabling a single bridge should break isolation"
    );
}

#[test]
fn gos_settings_load_on_missing_path_returns_defaults() {
    // A missing settings file decodes to nothing; loading falls back to defaults.
    let loaded = GosSettings::loaded_or_default(None);
    let defaults = GosSettings::default();
    assert_eq!(loaded.doh_enabled, defaults.doh_enabled);
    assert_eq!(loaded.kill_switch, defaults.kill_switch);
    assert_eq!(loaded.doh_provider, defaults.doh_provider);
    assert_eq!(loaded.theme_accent, defaults.theme_accent);
}

#[test]
fn now_ms_returns_positive_timestamp() {
    let ms = gos::now_ms();
    assert!(ms > 0, "now_ms should return a positive epoch timestamp");
}

#[test]
fn privacy_status_new_sets_node_id_and_secure_defaults() {
    let status = PrivacyStatus::new("abc".to_string());
    assert_eq!(status.node_id, "abc");
    assert!(status.doh_enabled, "DoH should default to enabled");
    assert!(status.kill_switch, "kill switch should default to enabled");
    assert!(!status.tor_enabled, "Tor should default to disabled");
}

#[test]
fn settings_defaults_are_the_safe_ones() {
    let s = GosSettings::default();
    assert!(!s.tor_enabled);
    assert!(s.doh_enabled);
    assert!(!s.vpn_enabled);
    assert!(s.kill_switch);
    assert!(!s.mac_randomized);
    assert_eq!(s.doh_provider, DohProvider::Cloudflare);
    assert!(!s.crossover.is_isolated());
    assert_eq!(s.theme_accent, "#4ade80");
}

#[test]
fn settings_decoded_from_file_are_kept() {
    let mut custom = GosSettings::default();
    custom.tor_enabled = true;
    custom.doh_provider = DohProvider::Quad9;
    custom.crossover = CrossoverToggles::all_off();
    let loaded = GosSettings::loaded_or_default(Some(custom));
    assert!(loaded.tor_enabled);
    assert_eq!(loaded.doh_provider, DohProvider::Quad9);
    assert!(loaded.crossover.is_isolated());
}

#[test]
fn provider_names_match_debug_output() {
    assert_eq!(DohProvider::Cloudflare.name(), "Cloudflare");
    assert_eq!(DohProvider::Quad9.name(), "Quad9");
    assert_eq!(DohProvider::Google.name(), "Google");
    assert_eq!(DohProvider::default(), DohProvider::Cloudflare);
}

#[test]
fn error_texts_carry_their_prefix() {
    assert_eq!(GosError::Io("disk".into()).to_string(), "io error: disk");
    assert_eq!(GosError::Serde("bad".into()).to_string(), "serialization error: bad");
    assert_eq!(GosError::Privacy("x".into()).to_string(), "privacy engine: x");
    assert_eq!(GosError::Platform("y".into()).to_string(), "platform op failed: y");
    assert_eq!(GosError::Bridge("z".into()).to_string(), "host bridge: z");
    assert_eq!(GosError::Other("plain".into()).to_string(), "plain");
}

#[test]
fn privacy_status_clone_is_equal() {
    let mut s = PrivacyStatus::new("n".to_string());
    s.exit_ip = Some("1.2.3.4".into());
    let c = s.clone();
    assert_eq!(c.exit_ip.as_deref(), Some("1.2.3.4"));
    assert_eq!(c.node_id, "n");
    assert_eq!(c.state, s.state);
}
