//! Per-OS network operations: the commands GOS runs on each OS, and the
//! reading of what those commands print.
//!
//! The commands themselves are run by the application shell; it hands the
//! output back to the parsers here, and runs the plans built here in order,
//! stopping at the first failure.
use vstd::prelude::*;
use crate::identity::hex_digit;
use crate::net::{decode_lossy, utf8_lossy};
use crate::text::{
    after_first, before_first, before_first_chars, chars_eq, chars_of, contains_chars,
    contains_seq, decimal, push_decimal, split_lines, split_once, split_words, starts_with,
    string_of, string_views, strip_prefix, trim, trim_chars, trim_quotes, TrimKind, lines, views, words,
};
use crate::types::GosError;

verus! {

/// A program to run with its arguments.
#[derive(Debug)]
pub struct Command {
    pub program: String,
    pub args: Vec<String>,
}

/// The program and the arguments of `c`, as text.
pub open spec fn command_view(c: Command) -> (Seq<char>, Seq<Seq<char>>) {
    (c.program@, string_views(c.args@))
}

pub open spec fn plan_view(p: Seq<Command>) -> Seq<(Seq<char>, Seq<Seq<char>>)> {
    p.map_values(|c: Command| command_view(c))
}

fn command(program: &str, args: Vec<String>) -> (c: Command)
    ensures
        c.program@ == program@,
        c.args == args,
{
    Command { program: program.to_owned(), args }
}

fn lit(s: &str) -> (r: String)
    ensures
        r@ == s@,
{
    s.to_owned()
}

/// A platform error with the text `m`.
fn platform_error(m: &str) -> (e: GosError)
    ensures
        e matches GosError::Platform(t) && t@ == m@,
{
    GosError::Platform(m.to_owned())
}

/// The error for operations that need the (not yet installed) privileged
/// helper.
pub fn kill_switch_unavailable() -> (e: GosError)
    ensures
        e matches GosError::Platform(t)
            && t@ == "kill-switch needs the GOS privileged helper (not installed yet)"@,
{
    platform_error("kill-switch needs the GOS privileged helper (not installed yet)")
}

/// The Linux operations (`ip`, `gsettings`, sysfs).
#[derive(Debug, Default)]
pub struct Linux;

/// The macOS operations (`route`, `networksetup`, `ifconfig`).
#[derive(Debug, Default)]
pub struct MacOs;

/// The Windows operations (`netsh`, `reg`, `getmac`).
#[derive(Debug, Default)]
pub struct Windows;

/// A target GOS does not support: every operation is a clear error.
#[derive(Debug, Default)]
pub struct Unsupported;

impl Linux {
    pub fn name(&self) -> (s: &'static str)
        ensures
            s@ == "linux"@,
    {
        "linux"
    }
}

impl MacOs {
    pub fn name(&self) -> (s: &'static str)
        ensures
            s@ == "macos"@,
    {
        "macos"
    }
}

impl Windows {
    pub fn name(&self) -> (s: &'static str)
        ensures
            s@ == "windows"@,
    {
        "windows"
    }
}

impl Unsupported {
    pub fn name(&self) -> (s: &'static str)
        ensures
            s@ == "unsupported"@,
    {
        "unsupported"
    }

    /// The error of every operation on an unsupported platform.
    pub fn error(&self) -> (e: GosError)
        ensures
            e matches GosError::Platform(t) && t@ == "unsupported platform"@,
    {
        platform_error("unsupported platform")
    }
}

// ---------------------------------------------------------------------------
// Running commands.

/// The text a command printed, as `String::from_utf8_lossy` reads it.
pub fn output_text(bytes: &[u8]) -> (s: String)
    ensures
        s@ == utf8_lossy(bytes@),
{
    decode_lossy(bytes)
}

/// `words` joined by single spaces, as `[&str]::join(" ")` gives them.
pub open spec fn join_spaces(words: Seq<Seq<char>>) -> Seq<char>
    decreases words.len(),
{
    if words.len() == 0 {
        Seq::empty()
    } else if words.len() == 1 {
        words[0]
    } else {
        join_spaces(words.drop_last()) + " "@ + words.last()
    }
}

/// The error for a command that could not be started.
pub fn spawn_error(program: &str, err: &str) -> (e: GosError)
    ensures
        e matches GosError::Platform(t) && t@ == program@ + ": "@ + err@,
{
    let mut m = program.to_owned();
    m.push_str(": ");
    m.push_str(err);
    GosError::Platform(m)
}

/// The error for a command that exited unsuccessfully, with what it printed
/// on its error stream.
pub fn command_failed(program: &str, args: &[String], stderr: &[u8]) -> (e: GosError)
    ensures
        e matches GosError::Platform(t) && t@ == program@ + " "@ + join_spaces(string_views(args@))
            + " failed: "@ + trim(utf8_lossy(stderr@)),
{
    let mut m = program.to_owned();
    m.push_str(" ");
    let mut i: usize = 0;
    let ghost base = m@;
    while i < args.len()
        invariant
            i <= args@.len(),
            m@ == base + join_spaces(string_views(args@.take(i as int))),
        decreases args@.len() - i,
    {
        let ghost before = string_views(args@.take(i as int));
        assert(string_views(args@.take(i + 1)) =~= before.push(args@[i as int]@));
        assert(string_views(args@.take(i + 1)).drop_last() =~= before);
        if i > 0 {
            m.push_str(" ");
        }
        m.push_str(args[i].as_str());
        i = i + 1;
    }
    assert(args@.take(args@.len() as int) =~= args@);
    m.push_str(" failed: ");
    let err = decode_lossy(stderr);
    let ecs = chars_of(err.as_str());
    let t = trim_chars(&ecs, TrimKind::Whitespace);
    let ts = string_of(&t);
    m.push_str(ts.as_str());
    GosError::Platform(m)
}

// ---------------------------------------------------------------------------
// Reading command output, line by line.

/// The first value that `f` gives for a line of `ls`, in order.
pub open spec fn first_some(ls: Seq<Seq<char>>, f: spec_fn(Seq<char>) -> Option<Seq<char>>) -> Option<Seq<char>>
    decreases ls.len(),
{
    if ls.len() == 0 {
        None
    } else {
        match f(ls[0]) {
            Some(x) => Some(x),
            None => first_some(ls.drop_first(), f),
        }
    }
}

/// The first line that gives a value decides: when line `i` gives `x` and
/// no earlier line gives any, the result is `x`; when no line gives a value,
/// there is none.
pub proof fn lemma_first_some_is_first_match(ls: Seq<Seq<char>>, f: spec_fn(Seq<char>) -> Option<Seq<char>>, i: int)
    ensures
        0 <= i < ls.len() && f(ls[i]) is Some && (forall|j: int| 0 <= j < i ==> f(ls[j]) is None)
            ==> first_some(ls, f) == f(ls[i]),
        (forall|j: int| 0 <= j < ls.len() ==> f(ls[j]) is None) ==> first_some(ls, f) is None,
    decreases ls.len(),
{
    if ls.len() > 0 {
        assert forall|j: int| 0 <= j < ls.len() - 1 implies ls.drop_first()[j] == ls[j + 1] by {}
        lemma_first_some_is_first_match(ls.drop_first(), f, i - 1);
        if i > 0 && (forall|j: int| 0 <= j < i ==> f(ls[j]) is None) {
            assert(f(ls[0]) is None);
        }
        if forall|j: int| 0 <= j < ls.len() ==> f(ls[j]) is None {
            assert(f(ls[0]) is None);
        }
    }
}

proof fn lemma_first_some_step(ls: Seq<Seq<char>>, f: spec_fn(Seq<char>) -> Option<Seq<char>>, i: int)
    requires
        0 <= i < ls.len(),
    ensures
        first_some(ls.skip(i), f) == match f(ls[i]) {
            Some(x) => Some(x),
            None => first_some(ls.skip(i + 1), f),
        },
{
    assert(ls.skip(i).drop_first() =~= ls.skip(i + 1));
    assert(ls.skip(i)[0] == ls[i]);
}

/// What macOS `route -n get default` says of a line: the interface it names.
pub open spec fn route_line(l: Seq<char>) -> Option<Seq<char>> {
    let t = trim(l);
    if starts_with(t, "interface:"@) {
        Some(trim(t.skip("interface:"@.len() as int)))
    } else {
        None
    }
}

pub open spec fn route_line_fn() -> spec_fn(Seq<char>) -> Option<Seq<char>> {
    |l: Seq<char>| route_line(l)
}

/// What macOS `ifconfig <iface>` says of a line: the MAC it names.
pub open spec fn ether_line(l: Seq<char>) -> Option<Seq<char>> {
    let t = trim(l);
    if starts_with(t, "ether "@) {
        Some(trim(t.skip("ether "@.len() as int)))
    } else {
        None
    }
}

pub open spec fn ether_line_fn() -> spec_fn(Seq<char>) -> Option<Seq<char>> {
    |l: Seq<char>| ether_line(l)
}

/// What Windows `netsh interface show interface` says of a line: the name
/// (last word) of an interface whose line mentions "Connected".
pub open spec fn connected_line(l: Seq<char>) -> Option<Seq<char>> {
    if contains_seq(l, "Connected"@) && words(l).len() > 0 {
        Some(words(l).last())
    } else {
        None
    }
}

pub open spec fn connected_line_fn() -> spec_fn(Seq<char>) -> Option<Seq<char>> {
    |l: Seq<char>| connected_line(l)
}

fn trim_prefixed(l: &[char], prefix: &str) -> (r: Option<Vec<char>>)
    ensures
        match r {
            Some(v) => {
                let t = trim(l@);
                starts_with(t, prefix@) && v@ == trim(t.skip(prefix@.len() as int))
            },
            None => !starts_with(trim(l@), prefix@),
        },
{
    let t = trim_chars(l, TrimKind::Whitespace);
    let p = chars_of(prefix);
    match strip_prefix(&t, &p) {
        Some(rest) => Some(trim_chars(&rest, TrimKind::Whitespace)),
        None => None,
    }
}

pub open spec fn opt_chars_view(o: Option<Vec<char>>) -> Option<Seq<char>> {
    match o {
        Some(v) => Some(v@),
        None => None,
    }
}

impl MacOs {
    /// The interface that macOS `route -n get default` names.
    pub fn interface_from_route(&self, out: &str) -> (r: Result<String, GosError>)
        ensures
            match first_some(lines(out@), route_line_fn()) {
                Some(i) => r matches Ok(s) && s@ == i,
                None => r matches Err(GosError::Platform(t)) && t@ == "no default route interface"@,
            },
    {
        let cs = chars_of(out);
        let ls = split_lines(&cs);
        let ghost f = route_line_fn();
        let mut i: usize = 0;
        assert(views(ls@).skip(0) =~= views(ls@));
        while i < ls.len()
            invariant
                i <= ls@.len(),
                views(ls@) == lines(out@),
                f == route_line_fn(),
                first_some(views(ls@), f) == first_some(views(ls@).skip(i as int), f),
            decreases ls@.len() - i,
        {
            proof {
                lemma_first_some_step(views(ls@), f, i as int);
            }
            match trim_prefixed(&ls[i], "interface:") {
                Some(v) => {
                    return Ok(string_of(&v));
                },
                None => {},
            }
            i = i + 1;
        }
        assert(views(ls@).skip(i as int) =~= Seq::<Seq<char>>::empty());
        Err(platform_error("no default route interface"))
    }
}

impl MacOs {
    /// The MAC address that macOS `ifconfig <iface>` prints for `iface`.
    pub fn mac_from(&self, out: &str, iface: &str) -> (r: Result<String, GosError>)
        ensures
            match first_some(lines(out@), ether_line_fn()) {
                Some(m) => r matches Ok(s) && s@ == m,
                None => r matches Err(GosError::Platform(t)) && t@ == "no MAC for interface "@ + iface@,
            },
    {
        let cs = chars_of(out);
        let ls = split_lines(&cs);
        let ghost f = ether_line_fn();
        let mut i: usize = 0;
        assert(views(ls@).skip(0) =~= views(ls@));
        while i < ls.len()
            invariant
                i <= ls@.len(),
                views(ls@) == lines(out@),
                f == ether_line_fn(),
                first_some(views(ls@), f) == first_some(views(ls@).skip(i as int), f),
            decreases ls@.len() - i,
        {
            proof {
                lemma_first_some_step(views(ls@), f, i as int);
            }
            match trim_prefixed(&ls[i], "ether ") {
                Some(v) => {
                    return Ok(string_of(&v));
                },
                None => {},
            }
            i = i + 1;
        }
        assert(views(ls@).skip(i as int) =~= Seq::<Seq<char>>::empty());
        let mut m = "no MAC for interface ".to_owned();
        m.push_str(iface);
        Err(GosError::Platform(m))
    }
}

impl Windows {
    /// The connected interface that Windows `netsh interface show interface`
    /// lists first.
    pub fn interface_from_listing(&self, out: &str) -> (r: Result<String, GosError>)
        ensures
            match first_some(lines(out@), connected_line_fn()) {
                Some(i) => r matches Ok(s) && s@ == i,
                None => r matches Err(GosError::Platform(t)) && t@ == "no connected interface"@,
            },
    {
        let cs = chars_of(out);
        let ls = split_lines(&cs);
        let pat = chars_of("Connected");
        let ghost f = connected_line_fn();
        let mut i: usize = 0;
        assert(views(ls@).skip(0) =~= views(ls@));
        while i < ls.len()
            invariant
                i <= ls@.len(),
                views(ls@) == lines(out@),
                pat@ == "Connected"@,
                f == connected_line_fn(),
                first_some(views(ls@), f) == first_some(views(ls@).skip(i as int), f),
            decreases ls@.len() - i,
        {
            proof {
                lemma_first_some_step(views(ls@), f, i as int);
            }
            if contains_chars(&ls[i], &pat) {
                let ws = split_words(&ls[i]);
                if ws.len() > 0 {
                    let last = &ws[ws.len() - 1];
                    assert(views(ws@).last() == last@);
                    return Ok(string_of(last));
                }
            }
            i = i + 1;
        }
        assert(views(ls@).skip(i as int) =~= Seq::<Seq<char>>::empty());
        Err(platform_error("no connected interface"))
    }
}

/// The MAC that Windows `getmac /fo csv /nh` prints first: the first field of
/// the first line, without surrounding quotes.
pub open spec fn getmac_first(out: Seq<char>) -> Option<Seq<char>> {
    if lines(out).len() > 0 {
        Some(trim_quotes(before_first(lines(out)[0], ","@)))
    } else {
        None
    }
}

impl Windows {
    /// The first MAC address that Windows `getmac /fo csv /nh` prints.
    pub fn mac_from(&self, out: &str) -> (r: Result<String, GosError>)
        ensures
            match getmac_first(out@) {
                Some(m) => r matches Ok(s) && s@ == m,
                None => r matches Err(GosError::Platform(t)) && t@ == "no MAC found"@,
            },
    {
        let cs = chars_of(out);
        let ls = split_lines(&cs);
        if ls.len() > 0 {
            let comma = chars_of(",");
            let field = before_first_chars(&ls[0], &comma);
            let mac = trim_chars(&field, TrimKind::Quote);
            return Ok(string_of(&mac));
        }
        Err(platform_error("no MAC found"))
    }
}

/// The interface that Linux `ip route show default` names: the word after
/// the first `dev`, when there is one.
pub open spec fn after_dev(ws: Seq<Seq<char>>) -> Option<Seq<char>>
    decreases ws.len(),
{
    if ws.len() == 0 {
        None
    } else if ws[0] == "dev"@ {
        if ws.len() >= 2 { Some(ws[1]) } else { None }
    } else {
        after_dev(ws.drop_first())
    }
}

/// The interface named is the word right after the first "dev": scanning
/// stops there, so later routes (and later "dev" words) do not count.
pub proof fn lemma_after_dev_is_first_dev(ws: Seq<Seq<char>>, i: int)
    requires
        0 <= i,
        i + 1 < ws.len(),
        ws[i] == "dev"@,
        forall|j: int| 0 <= j < i ==> ws[j] != "dev"@,
    ensures
        after_dev(ws) == Some(ws[i + 1]),
    decreases i,
{
    if i > 0 {
        assert(ws[0] != "dev"@);
        assert forall|j: int| 0 <= j < i - 1 implies ws.drop_first()[j] != "dev"@ by {
            assert(ws.drop_first()[j] == ws[j + 1]);
        }
        lemma_after_dev_is_first_dev(ws.drop_first(), i - 1);
    }
}

/// Without any "dev" word there is no interface to name.
pub proof fn lemma_after_dev_none_without_dev(ws: Seq<Seq<char>>)
    requires
        forall|j: int| 0 <= j < ws.len() ==> ws[j] != "dev"@,
    ensures
        after_dev(ws) is None,
    decreases ws.len(),
{
    if ws.len() > 0 {
        assert forall|j: int| 0 <= j < ws.len() - 1 implies ws.drop_first()[j] != "dev"@ by {
            assert(ws.drop_first()[j] == ws[j + 1]);
        }
        lemma_after_dev_none_without_dev(ws.drop_first());
    }
}

/// What `Linux::interface_from_route` gives: when the `i`-th word of the
/// output is its first "dev" and a word follows it, that word; when no word
/// is "dev", the error "no default route interface".
pub proof fn lemma_linux_route_interface(out: Seq<char>, r: Result<String, GosError>, i: int)
    requires
        match after_dev(words(out)) {
            Some(x) => r matches Ok(s) && s@ == x,
            None => r matches Err(GosError::Platform(t)) && t@ == "no default route interface"@,
        },
    ensures
        0 <= i && i + 1 < words(out).len() && words(out)[i] == "dev"@ && (forall|j: int|
            0 <= j < i ==> words(out)[j] != "dev"@) ==> (r matches Ok(s) && s@ == words(out)[i + 1]),
        (forall|j: int| 0 <= j < words(out).len() ==> words(out)[j] != "dev"@) ==> (r matches Err(
            GosError::Platform(t),
        ) && t@ == "no default route interface"@),
{
    let ws = words(out);
    if 0 <= i && i + 1 < ws.len() && ws[i] == "dev"@ && (forall|j: int| 0 <= j < i ==> ws[j] != "dev"@) {
        lemma_after_dev_is_first_dev(ws, i);
    }
    if forall|j: int| 0 <= j < ws.len() ==> ws[j] != "dev"@ {
        lemma_after_dev_none_without_dev(ws);
    }
}

impl Linux {
    /// The interface of the default route that Linux `ip route show default`
    /// prints.
    pub fn interface_from_route(&self, out: &str) -> (r: Result<String, GosError>)
        ensures
            match after_dev(words(out@)) {
                Some(i) => r matches Ok(s) && s@ == i,
                None => r matches Err(GosError::Platform(t)) && t@ == "no default route interface"@,
            },
    {
        let cs = chars_of(out);
        let ws = split_words(&cs);
        let dev = chars_of("dev");
        let mut i: usize = 0;
        assert(views(ws@).skip(0) =~= views(ws@));
        while i < ws.len()
            invariant
                i <= ws@.len(),
                views(ws@) == words(out@),
                dev@ == "dev"@,
                after_dev(views(ws@)) == after_dev(views(ws@).skip(i as int)),
            decreases ws@.len() - i,
        {
            assert(views(ws@).skip(i as int).drop_first() =~= views(ws@).skip(i + 1));
            assert(views(ws@).skip(i as int)[0] == ws@[i as int]@);
            if chars_eq(&ws[i], &dev) {
                if i + 1 < ws.len() {
                    assert(views(ws@).skip(i as int)[1] == ws@[i + 1]@);
                    return Ok(string_of(&ws[i + 1]));
                } else {
                    assert(views(ws@).skip(i as int).len() == 1);
                    return Err(platform_error("no default route interface"));
                }
            }
            i = i + 1;
        }
        assert(views(ws@).skip(i as int) =~= Seq::<Seq<char>>::empty());
        Err(platform_error("no default route interface"))
    }
}

// ---------------------------------------------------------------------------
// macOS: which network service carries an interface.

/// The service-name state after reading line `l` of
/// `networksetup -listnetworkserviceorder`: a line `(N) Name` names a service.
pub open spec fn service_after_line(l: Seq<char>, last: Option<Seq<char>>) -> Option<Seq<char>> {
    let t = trim(l);
    if starts_with(t, "("@) && contains_seq(t.skip(1), ")"@) {
        match after_first(t, ") "@) {
            Some(name) => Some(trim(name)),
            None => last,
        }
    } else {
        last
    }
}

/// The service that carries `iface`: the service named last before the
/// first line that mentions `Device: <iface>` while a name is pending.
pub open spec fn service_scan(ls: Seq<Seq<char>>, iface: Seq<char>, last: Option<Seq<char>>) -> Option<Seq<char>>
    decreases ls.len(),
{
    if ls.len() == 0 {
        None
    } else {
        let cur = service_after_line(ls[0], last);
        if contains_seq(trim(ls[0]), "Device: "@ + iface) {
            match cur {
                Some(s) => Some(s),
                None => service_scan(ls.drop_first(), iface, None),
            }
        } else {
            service_scan(ls.drop_first(), iface, cur)
        }
    }
}

impl MacOs {
    /// The network service (e.g. `Wi-Fi`) that macOS
    /// `networksetup -listnetworkserviceorder` lists for the interface `iface`.
    pub fn service_for(&self, listing: &str, iface: &str) -> (r: Result<String, GosError>)
        ensures
            match service_scan(lines(listing@), iface@, None) {
                Some(s) => r matches Ok(x) && x@ == s,
                None => r matches Err(GosError::Platform(t))
                    && t@ == "no network service found for interface "@ + iface@,
            },
    {
        let cs = chars_of(listing);
        let ls = split_lines(&cs);
        let open_paren = chars_of("(");
        let close_paren = chars_of(")");
        let sep = chars_of(") ");
        let mut device = chars_of("Device: ");
        let ic = chars_of(iface);
        let mut k: usize = 0;
        let ghost dev0 = device@;
        while k < ic.len()
            invariant
                k <= ic@.len(),
                device@ == dev0 + ic@.take(k as int),
            decreases ic@.len() - k,
        {
            device.push(ic[k]);
            k = k + 1;
        }
        assert(ic@.take(ic@.len() as int) =~= ic@);
        let mut last: Option<Vec<char>> = None;
        let mut i: usize = 0;
        assert(views(ls@).skip(0) =~= views(ls@));
        while i < ls.len()
            invariant
                i <= ls@.len(),
                views(ls@) == lines(listing@),
                open_paren@ == "("@,
                close_paren@ == ")"@,
                sep@ == ") "@,
                device@ == "Device: "@ + iface@,
                service_scan(views(ls@), iface@, None) == service_scan(
                    views(ls@).skip(i as int),
                    iface@,
                    opt_chars_view(last),
                ),
            decreases ls@.len() - i,
        {
            let ghost lastv = opt_chars_view(last);
            assert(views(ls@).skip(i as int).drop_first() =~= views(ls@).skip(i + 1));
            assert(views(ls@).skip(i as int)[0] == ls@[i as int]@);
            let t = trim_chars(&ls[i], TrimKind::Whitespace);
            if let Some(rest) = strip_prefix(&t, &open_paren) {
                proof {
                    reveal_strlit("(");
                }
                assert(rest@ =~= t@.skip(1));
                if contains_chars(&rest, &close_paren) {
                    if let Some((_, name)) = split_once(&t, &sep) {
                        last = Some(trim_chars(&name, TrimKind::Whitespace));
                    }
                }
            }
            assert(opt_chars_view(last) == service_after_line(
                ls@[i as int]@,
                lastv,
            ));
            if contains_chars(&t, &device) {
                match last {
                    Some(svc) => {
                        return Ok(string_of(&svc));
                    },
                    None => {},
                }
            }
            i = i + 1;
        }
        assert(views(ls@).skip(i as int) =~= Seq::<Seq<char>>::empty());
        let mut m = "no network service found for interface ".to_owned();
        m.push_str(iface);
        Err(GosError::Platform(m))
    }
}

// ---------------------------------------------------------------------------
// Command plans.

/// A SOCKS proxy address: the IP as text, the port, and the whole socket
/// address as text (`ip:port`, or `[ip]:port` for IPv6).
#[derive(Debug)]
pub struct ProxyAddr {
    pub host: String,
    pub port: u16,
    pub socket: String,
}

fn args4(a: String, b: String, c: String, d: String) -> (v: Vec<String>)
    ensures
        string_views(v@) == seq![a@, b@, c@, d@],
{
    let v = vec![a, b, c, d];
    assert(string_views(v@) =~= seq![a@, b@, c@, d@]);
    v
}

fn plan1(c0: Command) -> (v: Vec<Command>)
    ensures
        plan_view(v@) == seq![command_view(c0)],
{
    let v = vec![c0];
    assert(plan_view(v@) =~= seq![command_view(c0)]);
    v
}

fn plan2(c0: Command, c1: Command) -> (v: Vec<Command>)
    ensures
        plan_view(v@) == seq![command_view(c0), command_view(c1)],
{
    let v = vec![c0, c1];
    assert(plan_view(v@) =~= seq![command_view(c0), command_view(c1)]);
    v
}

fn plan3(c0: Command, c1: Command, c2: Command) -> (v: Vec<Command>)
    ensures
        plan_view(v@) == seq![command_view(c0), command_view(c1), command_view(c2)],
{
    let v = vec![c0, c1, c2];
    assert(plan_view(v@) =~= seq![command_view(c0), command_view(c1), command_view(c2)]);
    v
}

fn decimal_string(n: u16) -> (s: String)
    ensures
        s@ == decimal(n as nat),
{
    let mut s = String::new();
    push_decimal(&mut s, n as u64);
    s
}

/// The GNOME proxy settings that point the desktop at `addr`, or clear it.
pub open spec fn linux_socks_plan_is(addr: Option<ProxyAddr>) -> Seq<(Seq<char>, Seq<Seq<char>>)> {
    match addr {
        Some(a) => seq![
            ("gsettings"@, seq!["set"@, "org.gnome.system.proxy"@, "mode"@, "'manual'"@]),
            ("gsettings"@, seq!["set"@, "org.gnome.system.proxy.socks"@, "host"@, "'"@ + a.host@ + "'"@]),
            ("gsettings"@, seq!["set"@, "org.gnome.system.proxy.socks"@, "port"@, decimal(a.port as nat)]),
        ],
        None => seq![("gsettings"@, seq!["set"@, "org.gnome.system.proxy"@, "mode"@, "'none'"@])],
    }
}

impl Linux {
    /// Linux: the commands that set (or clear) the system SOCKS proxy.
    pub fn socks_plan(&self, addr: &Option<ProxyAddr>) -> (p: Vec<Command>)
        ensures
            plan_view(p@) == linux_socks_plan_is(*addr),
    {
        match addr {
            Some(a) => {
                let c0 = command("gsettings", args4(lit("set"), lit("org.gnome.system.proxy"), lit("mode"), lit("'manual'")));
                let mut host = "'".to_owned();
                host.push_str(a.host.as_str());
                host.push_str("'");
                let c1 = command("gsettings", args4(lit("set"), lit("org.gnome.system.proxy.socks"), lit("host"), host));
                let c2 = command("gsettings", args4(lit("set"), lit("org.gnome.system.proxy.socks"), lit("port"), decimal_string(a.port)));
                plan3(c0, c1, c2)
            },
            None => plan1(command("gsettings", args4(lit("set"), lit("org.gnome.system.proxy"), lit("mode"), lit("'none'")))),
        }
    }
}

/// The `networksetup` calls that point the macOS service `svc` at `addr`,
/// or switch its SOCKS proxy off.
pub open spec fn macos_socks_plan_is(svc: Seq<char>, addr: Option<ProxyAddr>) -> Seq<(Seq<char>, Seq<Seq<char>>)> {
    match addr {
        Some(a) => seq![
            ("networksetup"@, seq!["-setsocksfirewallproxy"@, svc, a.host@, decimal(a.port as nat)]),
            ("networksetup"@, seq!["-setsocksfirewallproxystate"@, svc, "on"@]),
        ],
        None => seq![("networksetup"@, seq!["-setsocksfirewallproxystate"@, svc, "off"@])],
    }
}

fn args3(a: String, b: String, c: String) -> (v: Vec<String>)
    ensures
        string_views(v@) == seq![a@, b@, c@],
{
    let v = vec![a, b, c];
    assert(string_views(v@) =~= seq![a@, b@, c@]);
    v
}

impl MacOs {
    /// macOS: the commands that set (or clear) the SOCKS proxy of the network
    /// service `svc`.
    pub fn socks_plan(&self, svc: &str, addr: &Option<ProxyAddr>) -> (p: Vec<Command>)
        ensures
            plan_view(p@) == macos_socks_plan_is(svc@, *addr),
    {
        match addr {
            Some(a) => {
                let c0 = command("networksetup", args4(lit("-setsocksfirewallproxy"), lit(svc), a.host.clone(), decimal_string(a.port)));
                let c1 = command("networksetup", args3(lit("-setsocksfirewallproxystate"), lit(svc), lit("on")));
                plan2(c0, c1)
            },
            None => plan1(command("networksetup", args3(lit("-setsocksfirewallproxystate"), lit(svc), lit("off")))),
        }
    }
}

/// The registry key of the per-user Internet settings.
pub open spec fn internet_settings_key() -> Seq<char> {
    "HKCU\\Software\\Microsoft\\Windows\\CurrentVersion\\Internet Settings"@
}

/// A `reg add` of the value `name` of type `ty` holding `data`.
pub open spec fn reg_add(name: Seq<char>, ty: Seq<char>, data: Seq<char>) -> (Seq<char>, Seq<Seq<char>>) {
    ("reg"@, seq!["add"@, internet_settings_key(), "/v"@, name, "/t"@, ty, "/d"@, data, "/f"@])
}

fn reg_add_command(name: &str, ty: &str, data: String) -> (c: Command)
    ensures
        command_view(c) == reg_add(name@, ty@, data@),
{
    let v = vec![
        lit("add"),
        lit("HKCU\\Software\\Microsoft\\Windows\\CurrentVersion\\Internet Settings"),
        lit("/v"),
        lit(name),
        lit("/t"),
        lit(ty),
        lit("/d"),
        data,
        lit("/f"),
    ];
    let c = command("reg", v);
    assert(string_views(c.args@) =~= reg_add(name@, ty@, data@).1);
    c
}

/// The registry writes that point Windows at `addr`, or disable the proxy.
pub open spec fn windows_socks_plan_is(addr: Option<ProxyAddr>) -> Seq<(Seq<char>, Seq<Seq<char>>)> {
    match addr {
        Some(a) => seq![
            reg_add("ProxyServer"@, "REG_SZ"@, "socks="@ + a.socket@),
            reg_add("ProxyEnable"@, "REG_DWORD"@, "1"@),
        ],
        None => seq![reg_add("ProxyEnable"@, "REG_DWORD"@, "0"@)],
    }
}

impl Windows {
    /// Windows: the commands that set (or clear) the per-user SOCKS proxy.
    pub fn socks_plan(&self, addr: &Option<ProxyAddr>) -> (p: Vec<Command>)
        ensures
            plan_view(p@) == windows_socks_plan_is(*addr),
    {
        match addr {
            Some(a) => {
                let mut server = "socks=".to_owned();
                server.push_str(a.socket.as_str());
                let c0 = reg_add_command("ProxyServer", "REG_SZ", server);
                let c1 = reg_add_command("ProxyEnable", "REG_DWORD", lit("1"));
                plan2(c0, c1)
            },
            None => plan1(reg_add_command("ProxyEnable", "REG_DWORD", lit("0"))),
        }
    }
}

impl Linux {
    /// Linux: the command that prints the MAC of `iface`.
    pub fn mac_read_command(&self, iface: &str) -> (c: Command)
        ensures
            command_view(c) == ("cat"@, seq!["/sys/class/net/"@ + iface@ + "/address"@]),
    {
        let mut path = "/sys/class/net/".to_owned();
        path.push_str(iface);
        path.push_str("/address");
        let v = vec![path];
        let c = command("cat", v);
        assert(string_views(c.args@) =~= seq!["/sys/class/net/"@ + iface@ + "/address"@]);
        c
    }
}

impl Linux {
    /// Linux: the MAC in what `cat /sys/class/net/<iface>/address` printed.
    pub fn mac_from(&self, out: &str) -> (s: String)
        ensures
            s@ == trim(out@),
    {
        let cs = chars_of(out);
        let t = trim_chars(&cs, TrimKind::Whitespace);
        string_of(&t)
    }
}

/// The `ip link` calls that take `iface` down, give it the MAC `mac`, and
/// bring it up again.
pub open spec fn linux_randomize_plan_is(iface: Seq<char>, mac: Seq<char>) -> Seq<(Seq<char>, Seq<Seq<char>>)> {
    seq![
        ("ip"@, seq!["link"@, "set"@, "dev"@, iface, "down"@]),
        ("ip"@, seq!["link"@, "set"@, "dev"@, iface, "address"@, mac]),
        ("ip"@, seq!["link"@, "set"@, "dev"@, iface, "up"@]),
    ]
}

impl Linux {
    /// Linux: the commands that assign the MAC `mac` to `iface`.
    pub fn randomize_plan(&self, iface: &str, mac: &str) -> (p: Vec<Command>)
        ensures
            plan_view(p@) == linux_randomize_plan_is(iface@, mac@),
    {
        let v0 = vec![lit("link"), lit("set"), lit("dev"), lit(iface), lit("down")];
        assert(string_views(v0@) =~= seq!["link"@, "set"@, "dev"@, iface@, "down"@]);
        let v1 = vec![lit("link"), lit("set"), lit("dev"), lit(iface), lit("address"), lit(mac)];
        assert(string_views(v1@) =~= seq!["link"@, "set"@, "dev"@, iface@, "address"@, mac@]);
        let v2 = vec![lit("link"), lit("set"), lit("dev"), lit(iface), lit("up")];
        assert(string_views(v2@) =~= seq!["link"@, "set"@, "dev"@, iface@, "up"@]);
        plan3(command("ip", v0), command("ip", v1), command("ip", v2))
    }
}

impl MacOs {
    /// macOS: the command that assigns the MAC `mac` to `iface`.
    pub fn randomize_command(&self, iface: &str, mac: &str) -> (c: Command)
        ensures
            command_view(c) == ("ifconfig"@, seq![iface@, "ether"@, mac@]),
    {
        command("ifconfig", args3(lit(iface), lit("ether"), lit(mac)))
    }
}

impl Windows {
    /// Windows: MAC randomization needs the privileged helper; the error names
    /// the candidate MAC.
    pub fn randomize_error(&self, candidate: &str) -> (e: GosError)
        ensures
            e matches GosError::Platform(t) && t@
                == "MAC randomization on Windows needs the GOS privileged helper (candidate "@
                + candidate@ + ")"@,
    {
        let mut m = "MAC randomization on Windows needs the GOS privileged helper (candidate ".to_owned();
        m.push_str(candidate);
        m.push_str(")");
        GosError::Platform(m)
    }
}

// ---------------------------------------------------------------------------
// Random MAC addresses.

/// Two lower-case hex digits of `b`, as `{:02x}` prints it.
pub open spec fn hex2(b: u8) -> Seq<char> {
    seq![hex_digit((b / 16) as nat), hex_digit((b % 16) as nat)]
}

/// The colon-separated text of six octets.
pub open spec fn mac_text(b: Seq<u8>) -> Seq<char> {
    hex2(b[0]) + ":"@ + hex2(b[1]) + ":"@ + hex2(b[2]) + ":"@ + hex2(b[3]) + ":"@ + hex2(b[4])
        + ":"@ + hex2(b[5])
}

/// An octet with the locally-administered bit set and the multicast bit clear.
pub open spec fn local_unicast(b: u8) -> bool {
    b & 3 == 2
}

fn hex_char(n: u8) -> (c: char)
    requires
        n < 16,
    ensures
        c == hex_digit(n as nat),
{
    if n == 0 { '0' } else if n == 1 { '1' } else if n == 2 { '2' } else if n == 3 { '3' }
    else if n == 4 { '4' } else if n == 5 { '5' } else if n == 6 { '6' } else if n == 7 { '7' }
    else if n == 8 { '8' } else if n == 9 { '9' } else if n == 10 { 'a' } else if n == 11 { 'b' }
    else if n == 12 { 'c' } else if n == 13 { 'd' } else if n == 14 { 'e' } else { 'f' }
}

fn push_hex2(s: &mut String, b: u8)
    ensures
        final(s)@ == old(s)@ + hex2(b),
{
    s.push(hex_char(b / 16));
    s.push(hex_char(b % 16));
    assert(final(s)@ =~= old(s)@ + hex2(b));
}

/// The colon-separated lower-case hex text of the six octets `b`.
pub fn format_mac(b: [u8; 6]) -> (s: String)
    ensures
        s@ == mac_text(b@),
{
    let mut s = String::new();
    push_hex2(&mut s, b[0]);
    s.push_str(":");
    push_hex2(&mut s, b[1]);
    s.push_str(":");
    push_hex2(&mut s, b[2]);
    s.push_str(":");
    push_hex2(&mut s, b[3]);
    s.push_str(":");
    push_hex2(&mut s, b[4]);
    s.push_str(":");
    push_hex2(&mut s, b[5]);
    assert(s@ =~= mac_text(b@));
    s
}

/// `rand::random::<[u8; 6]>()`: six octets from the thread-local random
/// generator. Nothing is stated of their values.
#[verifier::external_body]
fn random_octets() -> (b: [u8; 6]) {
    rand::random::<[u8; 6]>()
}

/// The MAC address made of the octets `b`, with the first octet marked
/// locally administered (bit 1 set) and unicast (bit 0 cleared).
pub fn mac_from_octets(b: [u8; 6]) -> (s: String)
    ensures
        s@ == mac_text(b@.update(0, (b@[0] | 2) & 0xfe)),
        local_unicast((b@[0] | 2) & 0xfe),
{
    let mut m = b;
    let b0 = m[0];
    let first = (b0 | 2) & 0xfe;
    assert(first & 3 == 2) by (bit_vector)
        requires
            first == (b0 | 2) & 0xfe,
    ;
    m[0] = first;
    assert(m@ =~= b@.update(0, first));
    format_mac(m)
}

/// A random locally-administered, unicast MAC address.
pub fn random_mac() -> (s: String)
    ensures
        exists|b: Seq<u8>| b.len() == 6 && local_unicast(b[0]) && s@ == mac_text(b),
{
    let b = random_octets();
    let s = mac_from_octets(b);
    let ghost m = b@.update(0, (b@[0] | 2) & 0xfe);
    assert(m.len() == 6 && local_unicast(m[0]) && s@ == mac_text(m));
    s
}

} // verus!
