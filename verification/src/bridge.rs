//! Host "cross-over": files, app launching, clipboard and devices, each
//! gated by its toggle.
//!
//! Every capability is checked against its toggle first, so flipping a
//! switch off (or Isolation Mode) severs that capability. The host calls
//! themselves (reading directories, spawning programs, the clipboard) are
//! made by the application shell once the toggle check here has passed.
use vstd::prelude::*;
use crate::platform::{Command, command_view};
use crate::text::{chars_of, split_words, string_of, string_views, views, words};
use crate::types::{CrossoverToggles, GosError, isolated};

verus! {

/// One entry of a host directory listing.
#[derive(Debug)]
pub struct FileEntry {
    pub name: String,
    pub path: String,
    pub is_dir: bool,
    pub size_bytes: u64,
}

/// A host capability that a toggle controls.
#[derive(Debug, Clone, Copy, PartialEq, Eq, Structural)]
pub enum Capability {
    Files,
    LaunchApps,
    Clipboard,
    Devices,
}

/// Whether the toggles let `cap` through.
pub open spec fn enabled(t: CrossoverToggles, cap: Capability) -> bool {
    match cap {
        Capability::Files => t.files,
        Capability::LaunchApps => t.launch_apps,
        Capability::Clipboard => t.clipboard,
        Capability::Devices => t.devices,
    }
}

/// How the user-facing text names `cap`.
pub open spec fn capability_name(cap: Capability) -> Seq<char> {
    match cap {
        Capability::Files => "files"@,
        Capability::LaunchApps => "launch-apps"@,
        Capability::Clipboard => "clipboard"@,
        Capability::Devices => "devices"@,
    }
}

/// The text of the refusal for a capability that is turned off.
pub open spec fn turned_off_text(what: Seq<char>) -> Seq<char> {
    what + " cross-over is turned off"@
}

pub struct HostBridge {
    toggles: CrossoverToggles,
}

impl View for HostBridge {
    type V = CrossoverToggles;

    closed spec fn view(&self) -> CrossoverToggles {
        self.toggles
    }
}

impl HostBridge {
    pub fn new(toggles: CrossoverToggles) -> (b: Self)
        ensures
            b@ == toggles,
    {
        HostBridge { toggles }
    }

    pub fn set_toggles(&mut self, toggles: CrossoverToggles)
        ensures
            final(self)@ == toggles,
    {
        self.toggles = toggles;
    }

    pub fn toggles(&self) -> (t: CrossoverToggles)
        ensures
            t == self@,
    {
        self.toggles
    }

    /// `Ok` when `enabled`, else the refusal naming `what`.
    pub fn require(enabled: bool, what: &str) -> (r: Result<(), GosError>)
        ensures
            if enabled {
                r is Ok
            } else {
                r matches Err(GosError::Bridge(m)) && m@ == turned_off_text(what@)
            },
    {
        if enabled {
            Ok(())
        } else {
            let mut m = what.to_owned();
            m.push_str(" cross-over is turned off");
            Err(GosError::Bridge(m))
        }
    }

    /// The toggle check for `cap`: `Ok` exactly when its toggle is on.
    pub fn check(&self, cap: Capability) -> (r: Result<(), GosError>)
        ensures
            if enabled(self@, cap) {
                r is Ok
            } else {
                r matches Err(GosError::Bridge(m)) && m@ == turned_off_text(capability_name(cap))
            },
    {
        match cap {
            Capability::Files => Self::require(self.toggles.files, "files"),
            Capability::LaunchApps => Self::require(self.toggles.launch_apps, "launch-apps"),
            Capability::Clipboard => Self::require(self.toggles.clipboard, "clipboard"),
            Capability::Devices => Self::require(self.toggles.devices, "devices"),
        }
    }
}

/// Each capability is gated by its own toggle alone: the check lets it
/// through exactly when that toggle is on, whatever the other toggles say.
pub proof fn lemma_check_follows_own_toggle(t: CrossoverToggles, cap: Capability, r: Result<(), GosError>)
    requires
        if enabled(t, cap) {
            r is Ok
        } else {
            r matches Err(GosError::Bridge(m)) && m@ == turned_off_text(capability_name(cap))
        },
    ensures
        cap == Capability::Files ==> (r is Ok <==> t.files),
        cap == Capability::LaunchApps ==> (r is Ok <==> t.launch_apps),
        cap == Capability::Clipboard ==> (r is Ok <==> t.clipboard),
        cap == Capability::Devices ==> (r is Ok <==> t.devices),
        r matches Err(GosError::Bridge(m)) ==> m@ == capability_name(cap) + " cross-over is turned off"@,
{
}

/// Isolation Mode severs every bridge, and only it does: the toggles are
/// isolated exactly when no capability gets through.
pub proof fn lemma_isolation_severs_every_bridge(t: CrossoverToggles)
    ensures
        isolated(t) <==> forall|cap: Capability| !#[trigger] enabled(t, cap),
{
    if !isolated(t) {
        if t.files {
            assert(enabled(t, Capability::Files));
        } else if t.launch_apps {
            assert(enabled(t, Capability::LaunchApps));
        } else if t.clipboard {
            assert(enabled(t, Capability::Clipboard));
        } else {
            assert(enabled(t, Capability::Devices));
        }
    }
}

// ---------------------------------------------------------------------------
// Directory listings: directories first, then by name.

/// `a` orders strictly before `b`, character by character (what `str`'s
/// ordering gives: UTF-8 byte order is code point order).
pub open spec fn text_lt(a: Seq<char>, b: Seq<char>) -> bool
    decreases a.len(),
{
    if a.len() == 0 {
        b.len() > 0
    } else if b.len() == 0 {
        false
    } else if a[0] != b[0] {
        a[0] < b[0]
    } else {
        text_lt(a.drop_first(), b.drop_first())
    }
}

proof fn lemma_text_lt_asymmetric(a: Seq<char>, b: Seq<char>)
    ensures
        text_lt(a, b) ==> !text_lt(b, a),
    decreases a.len(),
{
    if a.len() > 0 && b.len() > 0 && a[0] == b[0] {
        lemma_text_lt_asymmetric(a.drop_first(), b.drop_first());
    }
}

proof fn lemma_text_lt_irreflexive(a: Seq<char>)
    ensures
        !text_lt(a, a),
    decreases a.len(),
{
    if a.len() > 0 {
        lemma_text_lt_irreflexive(a.drop_first());
    }
}

/// The listing order: directories before files, then by name.
pub open spec fn entry_lt(a: FileEntry, b: FileEntry) -> bool {
    (a.is_dir && !b.is_dir) || (a.is_dir == b.is_dir && text_lt(a.name@, b.name@))
}

proof fn lemma_entry_lt_asymmetric(a: FileEntry, b: FileEntry)
    ensures
        entry_lt(a, b) ==> !entry_lt(b, a),
{
    lemma_text_lt_asymmetric(a.name@, b.name@);
}

/// Whatever lies between two texts in order splits their order: if `a` is
/// before `c`, then `a` is before `b` or `b` is before `c`.
proof fn lemma_text_lt_split(a: Seq<char>, b: Seq<char>, c: Seq<char>)
    ensures
        text_lt(a, c) ==> text_lt(a, b) || text_lt(b, c),
    decreases a.len(),
{
    if a.len() > 0 && b.len() > 0 && c.len() > 0 && a[0] == b[0] && b[0] == c[0] {
        lemma_text_lt_split(a.drop_first(), b.drop_first(), c.drop_first());
    }
}

proof fn lemma_entry_lt_split(a: FileEntry, b: FileEntry, c: FileEntry)
    ensures
        entry_lt(a, c) ==> entry_lt(a, b) || entry_lt(b, c),
{
    lemma_text_lt_split(a.name@, b.name@, c.name@);
}

/// Two entries with the same place in the listing order: the same kind and
/// the same name.
pub open spec fn same_key(a: FileEntry, b: FileEntry) -> bool {
    a.is_dir == b.is_dir && a.name@ == b.name@
}

/// The entries of `s` that share the listing place of `k`, in their order.
pub open spec fn with_key_of(s: Seq<FileEntry>, k: FileEntry) -> Seq<FileEntry>
    decreases s.len(),
{
    if s.len() == 0 {
        s
    } else {
        let r = with_key_of(s.drop_last(), k);
        if same_key(s.last(), k) {
            r.push(s.last())
        } else {
            r
        }
    }
}

proof fn lemma_with_key_of_add(a: Seq<FileEntry>, b: Seq<FileEntry>, k: FileEntry)
    ensures
        with_key_of(a + b, k) == with_key_of(a, k) + with_key_of(b, k),
    decreases b.len(),
{
    if b.len() == 0 {
        assert(a + b =~= a);
        assert(with_key_of(a, k) + with_key_of(b, k) =~= with_key_of(a, k));
    } else {
        assert((a + b).drop_last() =~= a + b.drop_last());
        lemma_with_key_of_add(a, b.drop_last(), k);
        if same_key(b.last(), k) {
            assert(with_key_of(a, k) + with_key_of(b.drop_last(), k).push(b.last()) =~= (with_key_of(
                a,
                k,
            ) + with_key_of(b.drop_last(), k)).push(b.last()));
        }
    }
}

proof fn lemma_with_key_of_none(s: Seq<FileEntry>, k: FileEntry)
    requires
        forall|i: int| 0 <= i < s.len() ==> !same_key(#[trigger] s[i], k),
    ensures
        with_key_of(s, k) == Seq::<FileEntry>::empty(),
    decreases s.len(),
{
    if s.len() > 0 {
        assert forall|i: int| 0 <= i < s.drop_last().len() implies !same_key(#[trigger] s.drop_last()[i], k) by {
            assert(s.drop_last()[i] == s[i]);
        }
        lemma_with_key_of_none(s.drop_last(), k);
        assert(!same_key(s[s.len() - 1], k));
    }
}

proof fn lemma_with_key_of_one(x: FileEntry, k: FileEntry)
    ensures
        with_key_of(seq![x], k) == (if same_key(x, k) { seq![x] } else { Seq::<FileEntry>::empty() }),
{
    assert(seq![x].drop_last() =~= Seq::<FileEntry>::empty());
    assert(seq![x].last() == x);
    assert(with_key_of(Seq::<FileEntry>::empty(), k) == Seq::<FileEntry>::empty());
    assert(Seq::<FileEntry>::empty().push(x) =~= seq![x]);
}

/// Inserting `x` at `j`, where everything from `j` on orders strictly after
/// `x`, appends `x` to its key class and leaves the other classes alone.
proof fn lemma_with_key_of_insert(s: Seq<FileEntry>, j: int, x: FileEntry, k: FileEntry)
    requires
        0 <= j <= s.len(),
        forall|m: int| j <= m < s.len() ==> entry_lt(x, #[trigger] s[m]),
    ensures
        with_key_of(s.insert(j, x), k) == (if same_key(x, k) {
            with_key_of(s, k).push(x)
        } else {
            with_key_of(s, k)
        }),
{
    let a = s.take(j);
    let b = s.skip(j);
    assert(s =~= a + b);
    assert(s.insert(j, x) =~= (a + seq![x]) + b);
    lemma_with_key_of_add(a + seq![x], b, k);
    lemma_with_key_of_add(a, seq![x], k);
    lemma_with_key_of_add(a, b, k);
    lemma_with_key_of_one(x, k);
    if same_key(x, k) {
        assert forall|i: int| 0 <= i < b.len() implies !same_key(#[trigger] b[i], k) by {
            assert(b[i] == s[j + i]);
            assert(entry_lt(x, s[j + i]));
            if same_key(b[i], k) {
                lemma_text_lt_irreflexive(x.name@);
            }
        }
        lemma_with_key_of_none(b, k);
        assert(with_key_of(a, k) + with_key_of(b, k) =~= with_key_of(a, k));
        assert((with_key_of(a, k) + seq![x]) + with_key_of(b, k) =~= with_key_of(a, k).push(x));
    } else {
        assert(with_key_of(a, k) + Seq::<FileEntry>::empty() =~= with_key_of(a, k));
    }
}

/// No entry is followed by one that orders strictly before it.
pub open spec fn listing_sorted(s: Seq<FileEntry>) -> bool {
    forall|i: int| 0 <= i < s.len() - 1 ==> !entry_lt(#[trigger] s[i + 1], s[i])
}

proof fn lemma_sorted_pair(s: Seq<FileEntry>, i: int, j: int)
    requires
        listing_sorted(s),
        0 <= i < j < s.len(),
    ensures
        !entry_lt(s[j], s[i]),
    decreases j - i,
{
    let k = j - 1;
    assert(!entry_lt(s[k + 1], s[k]));
    if k > i {
        lemma_sorted_pair(s, i, k);
        lemma_entry_lt_split(s[j], s[k], s[i]);
    }
}

/// A listing in order pair by neighbouring pair is in order across any two
/// places: no entry orders strictly before one that comes ahead of it.
pub proof fn lemma_listing_sorted_all_pairs(s: Seq<FileEntry>)
    requires
        listing_sorted(s),
    ensures
        forall|i: int, j: int| 0 <= i < j < s.len() ==> !entry_lt(#[trigger] s[j], #[trigger] s[i]),
{
    assert forall|i: int, j: int| 0 <= i < j < s.len() implies !entry_lt(#[trigger] s[j], #[trigger] s[i]) by {
        lemma_sorted_pair(s, i, j);
    }
}

/// Names order from their first character on: where two names first differ,
/// the one with the smaller character there comes first.
pub proof fn lemma_text_lt_first_difference(a: Seq<char>, b: Seq<char>, k: int)
    requires
        0 <= k < a.len(),
        k < b.len(),
        a.take(k) == b.take(k),
        a[k] < b[k],
    ensures
        text_lt(a, b),
    decreases k,
{
    if k > 0 {
        assert(a[0] == a.take(k)[0] && b[0] == b.take(k)[0]);
        assert(a.drop_first().take(k - 1) =~= a.take(k).drop_first());
        assert(b.drop_first().take(k - 1) =~= b.take(k).drop_first());
        lemma_text_lt_first_difference(a.drop_first(), b.drop_first(), k - 1);
    }
}

/// A name comes before every longer name that it begins.
pub proof fn lemma_text_lt_proper_prefix(a: Seq<char>, b: Seq<char>)
    requires
        a.len() < b.len(),
        b.take(a.len() as int) == a,
    ensures
        text_lt(a, b),
    decreases a.len(),
{
    if a.len() > 0 {
        assert(a[0] == b.take(a.len() as int)[0]);
        assert(b.drop_first().take(a.drop_first().len() as int) =~= a.drop_first());
        lemma_text_lt_proper_prefix(a.drop_first(), b.drop_first());
    }
}

/// In a listing in order, directories come before files, and of two entries
/// of the same kind the earlier one's name is no greater: where the two names
/// first differ, the earlier one has the smaller character, and a name that
/// begins the other comes first.
pub proof fn lemma_listing_order_by_kind_then_name(s: Seq<FileEntry>)
    requires
        listing_sorted(s),
    ensures
        forall|i: int, j: int| 0 <= i < j < s.len() ==> !(!(#[trigger] s[i]).is_dir && (#[trigger] s[j]).is_dir),
        forall|i: int, j: int, k: int|
            0 <= i < j < s.len() && s[i].is_dir == s[j].is_dir && 0 <= k < s[i].name@.len() && k
                < s[j].name@.len() && s[i].name@.take(k) == s[j].name@.take(k) && s[i].name@[k]
                != s[j].name@[k] ==> #[trigger] s[i].name@[k] < #[trigger] s[j].name@[k],
        forall|i: int, j: int|
            0 <= i < j < s.len() && (#[trigger] s[i]).is_dir == (#[trigger] s[j]).is_dir
                && s[j].name@.len() < s[i].name@.len() ==> s[i].name@.take(s[j].name@.len() as int)
                != s[j].name@,
{
    lemma_listing_sorted_all_pairs(s);
    assert forall|i: int, j: int| 0 <= i < j < s.len() implies !(!(#[trigger] s[i]).is_dir && (#[trigger] s[j]).is_dir) by {
        assert(!entry_lt(s[j], s[i]));
    }
    assert forall|i: int, j: int, k: int|
        0 <= i < j < s.len() && s[i].is_dir == s[j].is_dir && 0 <= k < s[i].name@.len() && k
            < s[j].name@.len() && s[i].name@.take(k) == s[j].name@.take(k) && s[i].name@[k]
            != s[j].name@[k] implies #[trigger] s[i].name@[k] < #[trigger] s[j].name@[k] by {
        assert(!entry_lt(s[j], s[i]));
        if s[j].name@[k] < s[i].name@[k] {
            lemma_text_lt_first_difference(s[j].name@, s[i].name@, k);
        }
    }
    assert forall|i: int, j: int|
        0 <= i < j < s.len() && (#[trigger] s[i]).is_dir == (#[trigger] s[j]).is_dir
            && s[j].name@.len() < s[i].name@.len() implies s[i].name@.take(s[j].name@.len() as int)
            != s[j].name@ by {
        assert(!entry_lt(s[j], s[i]));
        if s[i].name@.take(s[j].name@.len() as int) == s[j].name@ {
            lemma_text_lt_proper_prefix(s[j].name@, s[i].name@);
        }
    }
}

fn chars_lt(a: &[char], b: &[char]) -> (r: bool)
    ensures
        r == text_lt(a@, b@),
{
    let mut i: usize = 0;
    assert(a@.skip(0) =~= a@);
    assert(b@.skip(0) =~= b@);
    while i < a.len() && i < b.len() && a[i] == b[i]
        invariant
            i <= a@.len(),
            i <= b@.len(),
            text_lt(a@, b@) == text_lt(a@.skip(i as int), b@.skip(i as int)),
        decreases a@.len() - i,
    {
        assert(a@.skip(i as int).drop_first() =~= a@.skip(i + 1));
        assert(b@.skip(i as int).drop_first() =~= b@.skip(i + 1));
        i = i + 1;
    }
    if i == a.len() {
        i < b.len()
    } else if i == b.len() {
        false
    } else {
        assert(a@.skip(i as int)[0] == a@[i as int]);
        assert(b@.skip(i as int)[0] == b@[i as int]);
        a[i] < b[i]
    }
}

fn entry_before(a: &FileEntry, b: &FileEntry) -> (r: bool)
    ensures
        r == entry_lt(*a, *b),
{
    if a.is_dir != b.is_dir {
        return a.is_dir;
    }
    let an = chars_of(a.name.as_str());
    let bn = chars_of(b.name.as_str());
    chars_lt(&an, &bn)
}

/// The entries in listing order: directories first, then by name; entries
/// that share a place keep their order (a stable sort).
pub fn sort_entries(entries: Vec<FileEntry>) -> (r: Vec<FileEntry>)
    ensures
        r@.to_multiset() == entries@.to_multiset(),
        listing_sorted(r@),
        forall|i: int, j: int| 0 <= i < j < r@.len() ==> !entry_lt(#[trigger] r@[j], #[trigger] r@[i]),
        forall|k: FileEntry| #[trigger] with_key_of(r@, k) == with_key_of(entries@, k),
{
    broadcast use vstd::seq_lib::group_to_multiset_ensures;

    let ghost orig = entries@;
    let mut rest = entries;
    let mut out: Vec<FileEntry> = Vec::new();
    let ghost mut done: int = 0;
    assert(orig.skip(0) =~= orig);
    assert forall|k: FileEntry| #[trigger] with_key_of(out@, k) == with_key_of(orig.take(0), k) by {
        assert(orig.take(0) =~= out@);
    }
    while rest.len() > 0
        invariant
            out@.to_multiset().add(rest@.to_multiset()) == orig.to_multiset(),
            listing_sorted(out@),
            0 <= done <= orig.len(),
            rest@ == orig.skip(done),
            forall|k: FileEntry| #[trigger] with_key_of(out@, k) == with_key_of(orig.take(done), k),
        decreases rest@.len(),
    {
        let ghost rest0 = rest@;
        let x = rest.remove(0);
        assert(rest@ == rest0.remove(0));
        assert(x == orig[done]);
        let mut j: usize = out.len();
        let ghost out_before = out@;
        while j > 0 && entry_before(&x, &out[j - 1])
            invariant
                out@ == out_before,
                listing_sorted(out@),
                j <= out@.len(),
                forall|m: int| j <= m < out@.len() ==> entry_lt(x, #[trigger] out@[m]),
            decreases j,
        {
            j = j - 1;
        }
        let ghost out0 = out@;
        out.insert(j, x);
        proof {
            assert(out@ == out0.insert(j as int, x));
            assert forall|i: int| 0 <= i < out@.len() - 1 implies !entry_lt(#[trigger] out@[i + 1], out@[i]) by {
                if i + 1 < j {
                    assert(out@[i] == out0[i] && out@[i + 1] == out0[i + 1]);
                    assert(!entry_lt(out0[i + 1], out0[i]));
                } else if i + 1 == j {
                    assert(out@[i] == out0[i] && out@[i + 1] == x);
                } else if i == j {
                    assert(out@[i] == x && out@[i + 1] == out0[i]);
                    lemma_entry_lt_asymmetric(x, out0[i]);
                } else {
                    assert(out@[i] == out0[i - 1] && out@[i + 1] == out0[i]);
                    let k = i - 1;
                    assert(!entry_lt(out0[k + 1], out0[k]));
                }
            }
            vstd::seq_lib::to_multiset_insert(out0, j as int, x);
            vstd::seq_lib::to_multiset_remove(rest0, 0);
            assert(out@.to_multiset() == out0.to_multiset().insert(x));
            assert(rest@.to_multiset() == rest0.to_multiset().remove(x));
            assert(rest0[0] == x);
            vstd::seq_lib::to_multiset_contains(rest0, x);
            assert(rest0.contains(x));
            assert(rest0.to_multiset().count(x) > 0);
            assert(out@.to_multiset().add(rest@.to_multiset()) =~= out0.to_multiset().add(
                rest0.to_multiset(),
            ));
            assert(orig.take(done + 1).drop_last() =~= orig.take(done));
            assert(orig.take(done + 1).last() == x);
            assert forall|k: FileEntry| #[trigger] with_key_of(out@, k) == with_key_of(orig.take(done + 1), k) by {
                lemma_with_key_of_insert(out0, j as int, x, k);
            }
            assert(rest@ =~= orig.skip(done + 1));
            done = done + 1;
        }
    }
    assert(done == orig.len());
    assert(orig.take(done) =~= orig);
    assert(rest@.to_multiset() =~= vstd::multiset::Multiset::empty());
    assert(out@.to_multiset().add(rest@.to_multiset()) =~= out@.to_multiset());
    proof {
        lemma_listing_sorted_all_pairs(out@);
    }
    out
}

// ---------------------------------------------------------------------------
// Devices and apps.

/// The names of host network interfaces in the text a listing command
/// printed: its whitespace-separated words.
pub fn interface_names(text: &str) -> (r: Vec<String>)
    ensures
        string_views(r@) == words(text@),
{
    let cs = chars_of(text);
    let ws = split_words(&cs);
    let mut r: Vec<String> = Vec::new();
    let mut i: usize = 0;
    while i < ws.len()
        invariant
            i <= ws@.len(),
            string_views(r@) == views(ws@).take(i as int),
        decreases ws@.len() - i,
    {
        let ghost r0 = r@;
        r.push(string_of(&ws[i]));
        assert(string_views(r@) =~= string_views(r0).push(ws@[i as int]@));
        assert(string_views(r@) =~= views(ws@).take(i + 1));
        i = i + 1;
    }
    assert(views(ws@).take(ws@.len() as int) =~= views(ws@));
    r
}

/// The host OS, for choosing how to launch an application.
#[derive(Debug, Clone, Copy, PartialEq, Eq, Structural)]
pub enum HostOs {
    MacOs,
    Windows,
    Other,
}

/// The command that launches the installed application `name`.
pub open spec fn launch_command_is(os: HostOs, name: Seq<char>) -> (Seq<char>, Seq<Seq<char>>) {
    match os {
        HostOs::MacOs => ("open"@, seq!["-a"@, name]),
        HostOs::Windows => ("cmd"@, seq!["/C"@, "start"@, ""@, name]),
        HostOs::Other => ("xdg-open"@, seq![name]),
    }
}

/// The command that launches the installed application `name` on `os`.
pub fn launch_command(os: HostOs, name: &str) -> (c: Command)
    ensures
        command_view(c) == launch_command_is(os, name@),
{
    match os {
        HostOs::MacOs => {
            let v = vec!["-a".to_owned(), name.to_owned()];
            let c = Command { program: "open".to_owned(), args: v };
            assert(command_view(c).1 =~= seq!["-a"@, name@]);
            c
        },
        HostOs::Windows => {
            let v = vec!["/C".to_owned(), "start".to_owned(), "".to_owned(), name.to_owned()];
            let c = Command { program: "cmd".to_owned(), args: v };
            assert(command_view(c).1 =~= seq!["/C"@, "start"@, ""@, name@]);
            c
        },
        HostOs::Other => {
            let v = vec![name.to_owned()];
            let c = Command { program: "xdg-open".to_owned(), args: v };
            assert(command_view(c).1 =~= seq![name@]);
            c
        },
    }
}

/// The error for an application that could not be launched.
pub fn launch_error(name: &str, err: &str) -> (e: GosError)
    ensures
        e matches GosError::Bridge(m) && m@ == "could not launch "@ + name@ + ": "@ + err@,
{
    let mut m = "could not launch ".to_owned();
    m.push_str(name);
    m.push_str(": ");
    m.push_str(err);
    GosError::Bridge(m)
}

/// The error for an interface listing that could not be run.
pub fn interface_list_error(err: &str) -> (e: GosError)
    ensures
        e matches GosError::Bridge(m) && m@ == "interface list failed: "@ + err@,
{
    let mut m = "interface list failed: ".to_owned();
    m.push_str(err);
    GosError::Bridge(m)
}

} // verus!
