//! The privacy engine's state and decisions.
//!
//! The engine holds the privacy status, the chosen DoH provider and, while
//! Tor runs, the Tor client handle `C`. Network work (bootstrapping Tor,
//! measuring IPs, resolving over DoH) is done by the application shell,
//! which hands each outcome back to the methods here; the methods decide the
//! next state and what the user is told.
use vstd::prelude::*;
use crate::net::IpInfo;
use crate::settings::{DohProvider, provider_name};
use crate::text::{decimal, string_views};
use crate::types::{
    ConnectionState, GosError, LeakReport, LeakVerdict, PrivacyStatus, error_text, initial_status,
};

verus! {

pub struct PrivacyEngine<C> {
    pub status: PrivacyStatus,
    pub doh_provider: DohProvider,
    /// The Tor client, while Tor runs.
    pub tor: Option<C>,
}

/// What every operation of the engine keeps: Tor is reported on exactly
/// while a Tor client is held, "connected" is only reported with a client,
/// and a held client is never reported as disconnected.
pub open spec fn consistent<C>(e: PrivacyEngine<C>) -> bool {
    &&& e.status.tor_enabled <==> e.tor is Some
    &&& e.status.state == ConnectionState::Connected ==> e.tor is Some
    &&& e.tor is Some ==> e.status.state != ConnectionState::Disconnected
}

/// The error for Tor operations in a build without a Tor client.
pub open spec fn tor_unavailable_text() -> Seq<char> {
    "Tor support was not built into this binary"@
}

/// The error for Tor operations in a build without a Tor client.
pub fn tor_unavailable() -> (e: GosError)
    ensures
        e matches GosError::Privacy(m) && m@ == tor_unavailable_text(),
{
    GosError::Privacy("Tor support was not built into this binary".to_owned())
}

impl<C> PrivacyEngine<C> {
    pub fn new(node_id: String) -> (e: Self)
        ensures
            initial_status(e.status, node_id),
            e.doh_provider == DohProvider::Cloudflare,
            e.tor is None,
            consistent(e),
    {
        PrivacyEngine {
            status: PrivacyStatus::new(node_id),
            doh_provider: DohProvider::default(),
            tor: None,
        }
    }

    /// A snapshot of the current status.
    pub fn status(&self) -> (s: PrivacyStatus)
        ensures
            s == self.status,
    {
        self.status.clone()
    }

    /// Turns DoH on or off and selects its provider.
    pub fn set_doh(&mut self, enabled: bool, provider: DohProvider) -> (s: PrivacyStatus)
        ensures
            final(self).status == (PrivacyStatus { doh_enabled: enabled, ..old(self).status }),
            final(self).doh_provider == provider,
            final(self).tor == old(self).tor,
            s == final(self).status,
            consistent(*old(self)) ==> consistent(*final(self)),
    {
        self.status.doh_enabled = enabled;
        self.doh_provider = provider;
        self.status.clone()
    }

    /// Marks the engine as connecting while Tor bootstraps. When the
    /// bootstrap fails, the engine stays in this state.
    pub fn begin_tor_bootstrap(&mut self)
        ensures
            final(self).status == (PrivacyStatus {
                state: ConnectionState::Connecting,
                message: final(self).status.message,
                ..old(self).status
            }),
            final(self).status.message matches Some(m) && m@ == "bootstrapping Tor\u{2026}"@,
            final(self).doh_provider == old(self).doh_provider,
            final(self).tor == old(self).tor,
            consistent(*old(self)) ==> consistent(*final(self)),
    {
        self.status.state = ConnectionState::Connecting;
        self.status.message = Some("bootstrapping Tor\u{2026}".to_owned());
    }

    /// Records a bootstrapped Tor client and, when it could be measured, the
    /// exit it uses.
    pub fn complete_tor_bootstrap(&mut self, client: C, exit: Option<IpInfo>) -> (s: PrivacyStatus)
        ensures
            final(self).tor == Some(client),
            final(self).doh_provider == old(self).doh_provider,
            final(self).status == (PrivacyStatus {
                state: ConnectionState::Connected,
                tor_enabled: true,
                exit_ip: match exit {
                    Some(info) => Some(info.ip),
                    None => old(self).status.exit_ip,
                },
                exit_country: match exit {
                    Some(info) => info.country,
                    None => old(self).status.exit_country,
                },
                message: final(self).status.message,
                ..old(self).status
            }),
            final(self).status.message matches Some(m) && m@ == "Tor connected"@,
            s == final(self).status,
            consistent(*old(self)) ==> consistent(*final(self)),
    {
        self.tor = Some(client);
        self.status.state = ConnectionState::Connected;
        self.status.tor_enabled = true;
        if let Some(info) = exit {
            self.status.exit_ip = Some(info.ip);
            self.status.exit_country = info.country;
        }
        self.status.message = Some("Tor connected".to_owned());
        self.status.clone()
    }

    /// Drops the Tor client and forgets the exit.
    pub fn stop_tor(&mut self) -> (s: PrivacyStatus)
        ensures
            final(self).tor is None,
            final(self).doh_provider == old(self).doh_provider,
            final(self).status == (PrivacyStatus {
                state: ConnectionState::Disconnected,
                tor_enabled: false,
                exit_ip: None,
                exit_country: None,
                message: final(self).status.message,
                ..old(self).status
            }),
            final(self).status.message matches Some(m) && m@ == "Tor stopped"@,
            s == final(self).status,
            consistent(*old(self)) ==> consistent(*final(self)),
    {
        self.tor = None;
        self.status.tor_enabled = false;
        self.status.state = ConnectionState::Disconnected;
        self.status.exit_ip = None;
        self.status.exit_country = None;
        self.status.message = Some("Tor stopped".to_owned());
        self.status.clone()
    }

    /// The Tor client, when Tor runs; the error a new identity gets otherwise.
    pub fn running_tor(&self) -> (r: Result<&C, GosError>)
        ensures
            match self.tor {
                Some(c) => r == Ok::<&C, GosError>(&c),
                None => r matches Err(GosError::Privacy(m)) && m@ == "Tor is not running"@,
            },
    {
        match &self.tor {
            Some(c) => Ok(c),
            None => Err(GosError::Privacy("Tor is not running".to_owned())),
        }
    }

    /// Records the exit of a fresh circuit.
    pub fn apply_new_identity(&mut self, info: IpInfo) -> (s: PrivacyStatus)
        ensures
            final(self).tor == old(self).tor,
            final(self).doh_provider == old(self).doh_provider,
            final(self).status == (PrivacyStatus {
                exit_ip: Some(info.ip),
                exit_country: info.country,
                message: final(self).status.message,
                ..old(self).status
            }),
            final(self).status.message matches Some(m) && m@ == "new identity"@,
            s == final(self).status,
            consistent(*old(self)) ==> consistent(*final(self)),
    {
        self.status.exit_ip = Some(info.ip);
        self.status.exit_country = info.country;
        self.status.message = Some("new identity".to_owned());
        self.status.clone()
    }

    /// What a leak test starts from: whether DoH is on, its provider, and
    /// the last known exit IP.
    pub fn leak_test_inputs(&self) -> (r: (bool, DohProvider, Option<String>))
        ensures
            r == (self.status.doh_enabled, self.doh_provider, self.status.exit_ip),
    {
        (self.status.doh_enabled, self.doh_provider, crate::types::clone_opt_string(&self.status.exit_ip))
    }

    /// The DoH lookup a leak test makes: the host `example.com` through the
    /// engine's provider when DoH is on, and none when it is off.
    pub fn leak_doh_probe(&self) -> (r: Option<(DohProvider, String)>)
        ensures
            match r {
                Some((p, host)) => self.status.doh_enabled && p == self.doh_provider && host@
                    == leak_test_host(),
                None => !self.status.doh_enabled,
            },
    {
        if self.status.doh_enabled {
            Some((self.doh_provider, "example.com".to_owned()))
        } else {
            None
        }
    }
}

// ---------------------------------------------------------------------------
// The leak test.

/// The host a leak test resolves to check DoH.
pub open spec fn leak_test_host() -> Seq<char> {
    "example.com"@
}

/// What a leak test hands on of its DoH lookup: the lookup's outcome when
/// one was made (`probe`), nothing when DoH was off.
pub open spec fn doh_check_of(probe: Option<(DohProvider, String)>, looked_up: Result<usize, GosError>) -> Option<Result<usize, GosError>> {
    match probe {
        Some(_) => Some(looked_up),
        None => None,
    }
}

/// Whether the real IP is hidden: the exit IP is known and differs from the
/// IP measured over a direct connection, or that one is unknown. An unknown exit is never masked.
pub open spec fn masked(direct: Option<Seq<char>>, exit: Option<Seq<char>>) -> bool {
    match (direct, exit) {
        (Some(r), Some(x)) => r != x,
        (None, Some(_)) => true,
        _ => false,
    }
}

/// The verdict of a leak test. A visible real IP means "exposed", with DoH or
/// without. A hidden one means "protected" when DoH resolved, else "partial".
pub open spec fn verdict_of(ip_masked: bool, doh_active: bool) -> LeakVerdict {
    if !ip_masked {
        LeakVerdict::Exposed
    } else if doh_active {
        LeakVerdict::Protected
    } else {
        LeakVerdict::Partial
    }
}

pub open spec fn opt_view(o: Option<String>) -> Option<Seq<char>> {
    match o {
        Some(s) => Some(s@),
        None => None,
    }
}

/// The exit IP a leak test reports: a fresh measurement over Tor when it
/// succeeded, else the last known one.
pub open spec fn leak_exit_ip(known: Option<String>, tor_check: Option<Result<IpInfo, GosError>>) -> Option<String> {
    match tor_check {
        Some(Ok(info)) => Some(info.ip),
        _ => known,
    }
}

pub open spec fn real_ip_notes(direct: Result<IpInfo, GosError>) -> Seq<Seq<char>> {
    match direct {
        Ok(_) => Seq::empty(),
        Err(e) => seq!["could not determine real IP: "@ + error_text(e)],
    }
}

pub open spec fn tor_notes(tor_check: Option<Result<IpInfo, GosError>>) -> Seq<Seq<char>> {
    match tor_check {
        Some(Err(e)) => seq!["Tor exit check failed: "@ + error_text(e)],
        _ => Seq::empty(),
    }
}

pub open spec fn doh_note(provider: DohProvider, doh_check: Option<Result<usize, GosError>>) -> Seq<char> {
    match doh_check {
        None => "DoH disabled"@,
        Some(Ok(n)) => "DoH OK via "@ + provider_name(provider) + ": "@ + decimal(n as nat)
            + " address(es)"@,
        Some(Err(e)) => "DoH check failed: "@ + error_text(e),
    }
}

pub open spec fn mask_note(ip_masked: bool) -> Seq<char> {
    if ip_masked {
        "real IP is hidden behind the exit node"@
    } else {
        "real IP is visible \u{2014} not masked"@
    }
}

/// The lines of explanation of a leak test, in order.
pub open spec fn leak_details(
    provider: DohProvider,
    direct: Result<IpInfo, GosError>,
    tor_check: Option<Result<IpInfo, GosError>>,
    doh_check: Option<Result<usize, GosError>>,
    ip_masked: bool,
) -> Seq<Seq<char>> {
    real_ip_notes(direct) + tor_notes(tor_check) + seq![doh_note(provider, doh_check)] + seq![
        mask_note(ip_masked),
    ]
}

/// The complete report of a leak test.
pub open spec fn leak_report_is(
    rep: LeakReport,
    provider: DohProvider,
    exit_ip_known: Option<String>,
    direct: Result<IpInfo, GosError>,
    tor_check: Option<Result<IpInfo, GosError>>,
    doh_check: Option<Result<usize, GosError>>,
    checked_at_ms: i64,
) -> bool {
    let real_ip = match direct {
        Ok(info) => Some(info.ip),
        Err(_) => None,
    };
    let exit_ip = leak_exit_ip(exit_ip_known, tor_check);
    let ip_masked = masked(opt_view(real_ip), opt_view(exit_ip));
    let doh_active = doh_check matches Some(Ok(_));
    &&& rep.real_ip == real_ip
    &&& rep.exit_ip == exit_ip
    &&& rep.ip_masked == ip_masked
    &&& rep.doh_active == doh_active
    &&& rep.verdict == verdict_of(ip_masked, doh_active)
    &&& string_views(rep.details@) == leak_details(provider, direct, tor_check, doh_check, ip_masked)
    &&& rep.checked_at_ms == checked_at_ms
}

fn push_error_note(details: &mut Vec<String>, lead: &str, e: &GosError)
    ensures
        string_views(final(details)@) == string_views(old(details)@).push(lead@ + error_text(*e)),
{
    let mut m = lead.to_owned();
    let t = e.to_string();
    m.push_str(t.as_str());
    details.push(m);
    assert(string_views(final(details)@) =~= string_views(old(details)@).push(lead@ + error_text(*e)));
}

/// Assembles the report of a leak test from what was measured: the real IP
/// over a direct connection (`direct`), the exit IP over Tor when a Tor client
/// runs (`tor_check`, `None` when none runs), and the number of addresses a
/// DoH lookup gave (`doh_check`, `None` when DoH is off). `exit_ip_known` is
/// the exit IP the engine knew before the test.
pub fn assemble_leak_report(
    provider: DohProvider,
    exit_ip_known: Option<String>,
    direct: Result<IpInfo, GosError>,
    tor_check: Option<Result<IpInfo, GosError>>,
    doh_check: Option<Result<usize, GosError>>,
    checked_at_ms: i64,
) -> (rep: LeakReport)
    ensures
        leak_report_is(rep, provider, exit_ip_known, direct, tor_check, doh_check, checked_at_ms),
{
    let ghost direct0 = direct;
    let ghost tor0 = tor_check;
    let ghost doh0 = doh_check;
    let ghost known0 = exit_ip_known;
    let mut details: Vec<String> = Vec::new();

    let real_ip = match &direct {
        Ok(info) => Some(info.ip.clone()),
        Err(e) => {
            push_error_note(&mut details, "could not determine real IP: ", e);
            None
        },
    };
    assert(string_views(details@) =~= real_ip_notes(direct0));

    let mut exit_ip = exit_ip_known;
    match &tor_check {
        Some(Ok(info)) => {
            exit_ip = Some(info.ip.clone());
        },
        Some(Err(e)) => {
            push_error_note(&mut details, "Tor exit check failed: ", e);
        },
        None => {},
    }
    assert(string_views(details@) =~= real_ip_notes(direct0) + tor_notes(tor0));
    assert(exit_ip == leak_exit_ip(known0, tor0));

    let doh_active = match &doh_check {
        Some(Ok(n)) => {
            let mut m = "DoH OK via ".to_owned();
            let name = provider.name();
            m.push_str(name.as_str());
            m.push_str(": ");
            crate::text::push_decimal(&mut m, *n as u64);
            m.push_str(" address(es)");
            details.push(m);
            true
        },
        Some(Err(e)) => {
            push_error_note(&mut details, "DoH check failed: ", e);
            false
        },
        None => {
            details.push("DoH disabled".to_owned());
            false
        },
    };
    assert(string_views(details@) =~= real_ip_notes(direct0) + tor_notes(tor0) + seq![
        doh_note(provider, doh0),
    ]);

    let ip_masked = match (&real_ip, &exit_ip) {
        (Some(r), Some(x)) => !(*r == *x),
        (None, Some(_)) => true,
        _ => false,
    };

    if ip_masked {
        details.push("real IP is hidden behind the exit node".to_owned());
    } else {
        details.push("real IP is visible \u{2014} not masked".to_owned());
    }
    assert(string_views(details@) =~= leak_details(provider, direct0, tor0, doh0, ip_masked));

    let verdict = if !ip_masked {
        LeakVerdict::Exposed
    } else if doh_active {
        LeakVerdict::Protected
    } else {
        LeakVerdict::Partial
    };

    LeakReport { real_ip, exit_ip, ip_masked, doh_active, verdict, details, checked_at_ms }
}

// ---------------------------------------------------------------------------
// Laws of the leak test.

/// A leak test says "protected" only when DoH resolved and the exit IP is
/// known and is not the real IP (or the real IP could not be read at all).
pub proof fn lemma_protected_means_masked_and_encrypted(
    direct: Option<Seq<char>>,
    exit: Option<Seq<char>>,
    doh_active: bool,
)
    ensures
        verdict_of(masked(direct, exit), doh_active) == LeakVerdict::Protected <==> (doh_active
            && exit is Some && (direct is None || direct != exit)),
{
}

/// Fail closed: when the exit IP is unknown, the real IP never counts as
/// hidden, so the verdict is "exposed", with DoH or without.
pub proof fn lemma_unknown_exit_is_not_masked(direct: Option<Seq<char>>, doh_active: bool)
    ensures
        !masked(direct, None),
        verdict_of(masked(direct, None), doh_active) == LeakVerdict::Exposed,
{
}

/// The verdict is "exposed" exactly when the real IP is visible, and
/// "partial" exactly when it is hidden but DoH did not resolve.
pub proof fn lemma_verdict_classes(ip_masked: bool, doh_active: bool)
    ensures
        verdict_of(ip_masked, doh_active) == LeakVerdict::Exposed <==> !ip_masked,
        verdict_of(ip_masked, doh_active) == LeakVerdict::Partial <==> (ip_masked && !doh_active),
{
}

/// A leak test checks DoH only when DoH is on, and then once, for
/// `example.com` through the configured provider: with DoH off its report
/// says "DoH disabled" and counts DoH as inactive; with DoH on, DoH counts as
/// active exactly when that lookup succeeded.
pub proof fn lemma_leak_doh_follows_setting<C>(
    e: PrivacyEngine<C>,
    probe: Option<(DohProvider, String)>,
    looked_up: Result<usize, GosError>,
    exit_ip_known: Option<String>,
    direct: Result<IpInfo, GosError>,
    tor_check: Option<Result<IpInfo, GosError>>,
    checked_at_ms: i64,
    rep: LeakReport,
)
    requires
        match probe {
            Some((p, host)) => e.status.doh_enabled && p == e.doh_provider && host@
                == leak_test_host(),
            None => !e.status.doh_enabled,
        },
        leak_report_is(
            rep,
            e.doh_provider,
            exit_ip_known,
            direct,
            tor_check,
            doh_check_of(probe, looked_up),
            checked_at_ms,
        ),
    ensures
        probe is Some <==> e.status.doh_enabled,
        probe matches Some((p, host)) ==> p == e.doh_provider && host@ == "example.com"@,
        rep.doh_active == (e.status.doh_enabled && looked_up is Ok),
        !e.status.doh_enabled ==> string_views(rep.details@).contains("DoH disabled"@),
{
    if !e.status.doh_enabled {
        let d = leak_details(e.doh_provider, direct, tor_check, None, rep.ip_masked);
        let k: int = (real_ip_notes(direct).len() + tor_notes(tor_check).len()) as int;
        assert(d[k] == "DoH disabled"@);
    }
}

/// The exit IP a leak test reports is the one measured over Tor whenever that
/// measurement succeeded, whatever exit was known before; only without a
/// successful measurement does the last known exit stand. The IP counts as
/// masked exactly when that reported exit is known and is not the real IP
/// (or the real IP could not be read).
pub proof fn lemma_leak_report_uses_fresh_exit(
    provider: DohProvider,
    exit_ip_known: Option<String>,
    direct: Result<IpInfo, GosError>,
    tor_check: Option<Result<IpInfo, GosError>>,
    doh_check: Option<Result<usize, GosError>>,
    checked_at_ms: i64,
    rep: LeakReport,
)
    requires
        leak_report_is(rep, provider, exit_ip_known, direct, tor_check, doh_check, checked_at_ms),
    ensures
        tor_check matches Some(Ok(info)) ==> rep.exit_ip == Some(info.ip),
        !(tor_check matches Some(Ok(_))) ==> rep.exit_ip == exit_ip_known,
        rep.ip_masked <==> (rep.exit_ip matches Some(x) && (direct matches Ok(d) ==> d.ip@ != x@)),
        direct matches Ok(d) ==> rep.real_ip == Some(d.ip),
        direct is Err ==> rep.real_ip is None,
{
}

} // verus!
