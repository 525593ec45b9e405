//! Shared value types: connection state, privacy status, host cross-over
//! toggles, leak reports and the crate-wide error.
use vstd::prelude::*;

verus! {

/// Top-level connection state of the privacy engine.
#[derive(Debug, Clone, Copy, PartialEq, Eq, Structural)]
pub enum ConnectionState {
    Disconnected,
    Connecting,
    Connected,
    Error,
}

impl Default for ConnectionState {
    fn default() -> (r: Self)
        ensures
            r == ConnectionState::Disconnected,
    {
        ConnectionState::Disconnected
    }
}

/// A copy of an optional string, equal to the original.
pub fn clone_opt_string(o: &Option<String>) -> (r: Option<String>)
    ensures
        r == *o,
{
    match o {
        Some(s) => Some(s.clone()),
        None => None,
    }
}

/// A live snapshot of the privacy engine.
#[derive(Debug)]
pub struct PrivacyStatus {
    pub state: ConnectionState,
    pub tor_enabled: bool,
    pub doh_enabled: bool,
    pub vpn_enabled: bool,
    pub kill_switch: bool,
    pub mac_randomized: bool,
    /// IP traffic appears to come from (Tor exit / VPN endpoint), if known.
    pub exit_ip: Option<String>,
    pub exit_country: Option<String>,
    /// Local SOCKS port other apps can route through, once Tor is up.
    pub socks_port: Option<u16>,
    /// This install's public node id.
    pub node_id: String,
    /// Human-readable status / last error.
    pub message: Option<String>,
}

impl Clone for PrivacyStatus {
    fn clone(&self) -> (r: Self)
        ensures
            r == *self,
    {
        PrivacyStatus {
            state: self.state,
            tor_enabled: self.tor_enabled,
            doh_enabled: self.doh_enabled,
            vpn_enabled: self.vpn_enabled,
            kill_switch: self.kill_switch,
            mac_randomized: self.mac_randomized,
            exit_ip: clone_opt_string(&self.exit_ip),
            exit_country: clone_opt_string(&self.exit_country),
            socks_port: self.socks_port,
            node_id: self.node_id.clone(),
            message: clone_opt_string(&self.message),
        }
    }
}

/// The status of a fresh install with node id `node_id`: disconnected,
/// DoH and kill switch on, everything else off and unknown.
pub open spec fn initial_status(s: PrivacyStatus, node_id: String) -> bool {
    &&& s.state == ConnectionState::Disconnected
    &&& !s.tor_enabled
    &&& s.doh_enabled
    &&& !s.vpn_enabled
    &&& s.kill_switch
    &&& !s.mac_randomized
    &&& s.exit_ip is None
    &&& s.exit_country is None
    &&& s.socks_port is None
    &&& s.node_id == node_id
    &&& s.message is None
}

impl PrivacyStatus {
    pub fn new(node_id: String) -> (s: Self)
        ensures
            initial_status(s, node_id),
    {
        PrivacyStatus {
            state: ConnectionState::Disconnected,
            tor_enabled: false,
            doh_enabled: true,
            vpn_enabled: false,
            kill_switch: true,
            mac_randomized: false,
            exit_ip: None,
            exit_country: None,
            socks_port: None,
            node_id,
            message: None,
        }
    }
}

/// Host cross-over bridges. Each is independently revocable; all off is
/// full isolation.
#[derive(Debug, Clone, Copy, PartialEq, Eq, Structural)]
pub struct CrossoverToggles {
    pub files: bool,
    pub launch_apps: bool,
    pub clipboard: bool,
    pub devices: bool,
}

/// Whether every host bridge is severed ("Isolation Mode").
pub open spec fn isolated(t: CrossoverToggles) -> bool {
    !t.files && !t.launch_apps && !t.clipboard && !t.devices
}

impl Default for CrossoverToggles {
    /// Host integration is on by default; the user can isolate at will.
    fn default() -> (t: Self)
        ensures
            t.files && t.launch_apps && t.clipboard && t.devices,
    {
        CrossoverToggles { files: true, launch_apps: true, clipboard: true, devices: true }
    }
}

impl CrossoverToggles {
    pub fn all_off() -> (t: Self)
        ensures
            !t.files && !t.launch_apps && !t.clipboard && !t.devices,
    {
        CrossoverToggles { files: false, launch_apps: false, clipboard: false, devices: false }
    }

    /// True when every host bridge is severed ("Isolation Mode").
    pub fn is_isolated(&self) -> (b: bool)
        ensures
            b == isolated(*self),
    {
        !self.files && !self.launch_apps && !self.clipboard && !self.devices
    }
}

/// Plain-language verdict of the leak check. Never claims "untrackable".
#[derive(Debug, Clone, Copy, PartialEq, Eq, Structural)]
pub enum LeakVerdict {
    /// Real IP is hidden and DNS is encrypted.
    Protected,
    /// Some protection, but at least one gap.
    Partial,
    /// Real IP is visible: treat as not protected.
    Exposed,
}

/// Result of a one-tap leak test comparing the real vs. exit IP.
#[derive(Debug)]
pub struct LeakReport {
    pub real_ip: Option<String>,
    pub exit_ip: Option<String>,
    pub ip_masked: bool,
    pub doh_active: bool,
    pub verdict: LeakVerdict,
    pub details: Vec<String>,
    pub checked_at_ms: i64,
}

/// Crate-wide error type. Each variant carries the text of what failed.
#[derive(Debug)]
pub enum GosError {
    Io(String),
    Serde(String),
    Privacy(String),
    Platform(String),
    Bridge(String),
    Other(String),
}

/// The text of an error, as the user sees it.
pub open spec fn error_text(e: GosError) -> Seq<char> {
    match e {
        GosError::Io(s) => "io error: "@ + s@,
        GosError::Serde(s) => "serialization error: "@ + s@,
        GosError::Privacy(s) => "privacy engine: "@ + s@,
        GosError::Platform(s) => "platform op failed: "@ + s@,
        GosError::Bridge(s) => "host bridge: "@ + s@,
        GosError::Other(s) => s@,
    }
}

impl GosError {
    /// The text of this error, as the user sees it.
    pub fn to_string(&self) -> (r: String)
        ensures
            r@ == error_text(*self),
    {
        match self {
            GosError::Io(s) => {
                let mut r = "io error: ".to_owned();
                r.push_str(s.as_str());
                r
            },
            GosError::Serde(s) => {
                let mut r = "serialization error: ".to_owned();
                r.push_str(s.as_str());
                r
            },
            GosError::Privacy(s) => {
                let mut r = "privacy engine: ".to_owned();
                r.push_str(s.as_str());
                r
            },
            GosError::Platform(s) => {
                let mut r = "platform op failed: ".to_owned();
                r.push_str(s.as_str());
                r
            },
            GosError::Bridge(s) => {
                let mut r = "host bridge: ".to_owned();
                r.push_str(s.as_str());
                r
            },
            GosError::Other(s) => s.clone(),
        }
    }
}

} // verus!
