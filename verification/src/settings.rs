//! Persisted user settings.
//!
//! The JSON file itself is read and written by the application shell; this
//! module holds the settings value, its defaults and the rule that a missing
//! or malformed file falls back to the defaults.
use vstd::prelude::*;
use crate::types::{ConnectionState, CrossoverToggles, PrivacyStatus, initial_status};

verus! {

/// Which DoH provider to resolve through.
#[derive(Debug, Clone, Copy, PartialEq, Eq, Structural)]
pub enum DohProvider {
    Cloudflare,
    Quad9,
    Google,
}

impl Default for DohProvider {
    fn default() -> (p: Self)
        ensures
            p == DohProvider::Cloudflare,
    {
        DohProvider::Cloudflare
    }
}

/// The provider's name as `{:?}` prints it.
pub open spec fn provider_name(p: DohProvider) -> Seq<char> {
    match p {
        DohProvider::Cloudflare => "Cloudflare"@,
        DohProvider::Quad9 => "Quad9"@,
        DohProvider::Google => "Google"@,
    }
}

impl DohProvider {
    /// The provider's name as `{:?}` prints it.
    pub fn name(&self) -> (s: String)
        ensures
            s@ == provider_name(*self),
    {
        match self {
            DohProvider::Cloudflare => "Cloudflare".to_owned(),
            DohProvider::Quad9 => "Quad9".to_owned(),
            DohProvider::Google => "Google".to_owned(),
        }
    }
}

#[derive(Debug)]
pub struct GosSettings {
    pub tor_enabled: bool,
    pub doh_enabled: bool,
    pub vpn_enabled: bool,
    pub kill_switch: bool,
    pub mac_randomized: bool,
    pub doh_provider: DohProvider,
    pub crossover: CrossoverToggles,
    /// Accent color for the UI theme (hex).
    pub theme_accent: String,
}

/// The settings of a fresh install: DoH and kill switch on, Tor, VPN and MAC
/// randomization off, Cloudflare, every host bridge on, a green accent.
pub open spec fn default_settings(s: GosSettings) -> bool {
    &&& !s.tor_enabled
    &&& s.doh_enabled
    &&& !s.vpn_enabled
    &&& s.kill_switch
    &&& !s.mac_randomized
    &&& s.doh_provider == DohProvider::Cloudflare
    &&& s.crossover == CrossoverToggles { files: true, launch_apps: true, clipboard: true, devices: true }
    &&& s.theme_accent@ == "#4ade80"@
}

impl Default for GosSettings {
    fn default() -> (s: Self)
        ensures
            default_settings(s),
    {
        GosSettings {
            tor_enabled: false,
            doh_enabled: true,
            vpn_enabled: false,
            kill_switch: true,
            mac_randomized: false,
            doh_provider: DohProvider::default(),
            crossover: CrossoverToggles::default(),
            theme_accent: "#4ade80".to_owned(),
        }
    }
}

impl Clone for GosSettings {
    fn clone(&self) -> (r: Self)
        ensures
            r == *self,
    {
        GosSettings {
            tor_enabled: self.tor_enabled,
            doh_enabled: self.doh_enabled,
            vpn_enabled: self.vpn_enabled,
            kill_switch: self.kill_switch,
            mac_randomized: self.mac_randomized,
            doh_provider: self.doh_provider,
            crossover: self.crossover,
            theme_accent: self.theme_accent.clone(),
        }
    }
}

impl GosSettings {
    /// The settings that loading gives: the decoded file when there was one
    /// and it decoded, else the defaults. `decoded` is `None` both for a
    /// missing file and for a malformed one: neither is an error.
    pub fn loaded_or_default(decoded: Option<GosSettings>) -> (s: GosSettings)
        ensures
            match decoded {
                Some(d) => s == d,
                None => default_settings(s),
            },
    {
        match decoded {
            Some(d) => d,
            None => GosSettings::default(),
        }
    }
}

/// A fresh install's status reports the protection its default settings
/// give: DoH and the kill switch on; Tor, VPN and MAC randomization off;
/// nothing connected and no exit known.
pub proof fn lemma_initial_status_matches_default_settings(
    s: PrivacyStatus,
    node_id: String,
    d: GosSettings,
)
    requires
        initial_status(s, node_id),
        default_settings(d),
    ensures
        s.tor_enabled == d.tor_enabled,
        s.doh_enabled == d.doh_enabled,
        s.vpn_enabled == d.vpn_enabled,
        s.kill_switch == d.kill_switch,
        s.mac_randomized == d.mac_randomized,
        !s.mac_randomized && !s.tor_enabled && !s.vpn_enabled,
        s.doh_enabled && s.kill_switch,
        s.state == ConnectionState::Disconnected,
        s.exit_ip is None && s.socks_port is None,
        s.node_id == node_id,
{
}

} // verus!
