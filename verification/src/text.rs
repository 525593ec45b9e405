//! Character-level text helpers shared by the parsers of this crate.
//!
//! Every helper works on `Seq<char>` in its contract, and states its result
//! by a spec function that says what the standard library's method of the
//! same purpose computes (`split_whitespace`, `lines`, `trim`, ...).
use vstd::prelude::*;

verus! {

/// `String::push` appends one character at the end of the string.
pub assume_specification[ String::push ](s: &mut String, ch: char)
    ensures
        final(s)@ == old(s)@.push(ch),
;

/// `String::push_str` appends the characters of `string` at the end.
pub assume_specification[ String::push_str ](s: &mut String, string: &str)
    ensures
        final(s)@ == old(s)@ + string@,
;

/// Characters with the Unicode `White_Space` property.
pub open spec fn is_ws(c: char) -> bool {
    ||| ('\u{9}' <= c && c <= '\u{d}')
    ||| c == ' '
    ||| c == '\u{85}'
    ||| c == '\u{a0}'
    ||| c == '\u{1680}'
    ||| ('\u{2000}' <= c && c <= '\u{200a}')
    ||| c == '\u{2028}'
    ||| c == '\u{2029}'
    ||| c == '\u{202f}'
    ||| c == '\u{205f}'
    ||| c == '\u{3000}'
}

/// Whether `c` has the Unicode `White_Space` property, as `char::is_whitespace`
/// tells it.
pub(crate) fn char_is_whitespace(c: char) -> (b: bool)
    ensures
        b == is_ws(c),
{
    ('\u{9}' <= c && c <= '\u{d}') || c == ' ' || c == '\u{85}' || c == '\u{a0}'
        || c == '\u{1680}' || ('\u{2000}' <= c && c <= '\u{200a}') || c == '\u{2028}'
        || c == '\u{2029}' || c == '\u{202f}' || c == '\u{205f}' || c == '\u{3000}'
}

/// The characters of `s`, in order.
pub fn chars_of(s: &str) -> (v: Vec<char>)
    ensures
        v@ == s@,
{
    let mut v: Vec<char> = Vec::new();
    for c in it: s.chars()
        invariant
            v@ == it.seq().take(it.index()),
    {
        v.push(c);
    }
    v
}

/// A `String` holding exactly the characters `cs`.
pub fn string_of(cs: &[char]) -> (s: String)
    ensures
        s@ == cs@,
{
    let mut s = String::new();
    let mut i: usize = 0;
    while i < cs.len()
        invariant
            i <= cs@.len(),
            s@ == cs@.take(i as int),
        decreases cs@.len() - i,
    {
        s.push(cs[i]);
        i = i + 1;
    }
    s
}

/// The characters of `s` from `lo` (inclusive) to `hi` (exclusive).
pub fn slice_chars(s: &[char], lo: usize, hi: usize) -> (r: Vec<char>)
    requires
        lo <= hi <= s@.len(),
    ensures
        r@ == s@.subrange(lo as int, hi as int),
{
    let mut r: Vec<char> = Vec::new();
    let mut i: usize = lo;
    while i < hi
        invariant
            lo <= i <= hi <= s@.len(),
            r@ == s@.subrange(lo as int, i as int),
        decreases hi - i,
    {
        r.push(s[i]);
        i = i + 1;
    }
    r
}

/// Whether two character sequences are equal.
pub fn chars_eq(a: &[char], b: &[char]) -> (r: bool)
    ensures
        r == (a@ == b@),
{
    if a.len() != b.len() {
        return false;
    }
    let mut i: usize = 0;
    while i < a.len()
        invariant
            a@.len() == b@.len(),
            i <= a@.len(),
            forall|j: int| 0 <= j < i ==> a@[j] == b@[j],
        decreases a@.len() - i,
    {
        if a[i] != b[i] {
            return false;
        }
        i = i + 1;
    }
    assert(a@ =~= b@);
    true
}

// ---------------------------------------------------------------------------
// Decimal rendering of unsigned integers.

/// The ASCII digit for `d < 10`.
pub open spec fn digit_char(d: nat) -> char {
    if d == 0 { '0' }
    else if d == 1 { '1' }
    else if d == 2 { '2' }
    else if d == 3 { '3' }
    else if d == 4 { '4' }
    else if d == 5 { '5' }
    else if d == 6 { '6' }
    else if d == 7 { '7' }
    else if d == 8 { '8' }
    else { '9' }
}

/// The decimal rendering of `n`, without leading zeros (`"0"` for zero).
pub open spec fn decimal(n: nat) -> Seq<char>
    decreases n,
{
    if n < 10 {
        seq![digit_char(n)]
    } else {
        decimal(n / 10).push(digit_char(n % 10))
    }
}

fn digit(d: u64) -> (c: char)
    requires
        d < 10,
    ensures
        c == digit_char(d as nat),
{
    if d == 0 { '0' }
    else if d == 1 { '1' }
    else if d == 2 { '2' }
    else if d == 3 { '3' }
    else if d == 4 { '4' }
    else if d == 5 { '5' }
    else if d == 6 { '6' }
    else if d == 7 { '7' }
    else if d == 8 { '8' }
    else { '9' }
}

/// Appends the decimal rendering of `n` to `s`.
pub fn push_decimal(s: &mut String, n: u64)
    ensures
        final(s)@ == old(s)@ + decimal(n as nat),
    decreases n,
{
    if n >= 10 {
        push_decimal(s, n / 10);
    }
    s.push(digit(n % 10));
    assert(decimal(n as nat) =~= if n < 10 { seq![digit_char(n as nat)] } else {
        decimal((n / 10) as nat).push(digit_char((n % 10) as nat))
    });
}

// ---------------------------------------------------------------------------
// Trimming.

/// The number of leading characters of `s` that satisfy `p`.
pub open spec fn lead_len(s: Seq<char>, p: spec_fn(char) -> bool) -> nat
    decreases s.len(),
{
    if s.len() > 0 && p(s[0]) {
        1 + lead_len(s.drop_first(), p)
    } else {
        0
    }
}

/// The number of trailing characters of `s` that satisfy `p`.
pub open spec fn trail_len(s: Seq<char>, p: spec_fn(char) -> bool) -> nat
    decreases s.len(),
{
    if s.len() > 0 && p(s.last()) {
        1 + trail_len(s.drop_last(), p)
    } else {
        0
    }
}

/// `s` without its leading and trailing characters that satisfy `p`.
pub open spec fn trim_by(s: Seq<char>, p: spec_fn(char) -> bool) -> Seq<char> {
    let t = s.skip(lead_len(s, p) as int);
    t.take(t.len() - trail_len(t, p))
}

pub open spec fn ws_pred() -> spec_fn(char) -> bool {
    |c: char| is_ws(c)
}

pub open spec fn quote_pred() -> spec_fn(char) -> bool {
    |c: char| c == '"'
}

/// What `str::trim` gives: `s` without leading and trailing whitespace.
pub open spec fn trim(s: Seq<char>) -> Seq<char> {
    trim_by(s, ws_pred())
}

/// What `str::trim_matches('"')` gives.
pub open spec fn trim_quotes(s: Seq<char>) -> Seq<char> {
    trim_by(s, quote_pred())
}

/// Which characters a trim removes.
pub enum TrimKind {
    Whitespace,
    Quote,
}

pub open spec fn trim_pred(k: TrimKind) -> spec_fn(char) -> bool {
    match k {
        TrimKind::Whitespace => ws_pred(),
        TrimKind::Quote => quote_pred(),
    }
}

fn trims(c: char, k: &TrimKind) -> (b: bool)
    ensures
        b == (trim_pred(*k))(c),
{
    match k {
        TrimKind::Whitespace => char_is_whitespace(c),
        TrimKind::Quote => c == '"',
    }
}

/// `s` without the leading and trailing characters that `k` names.
pub fn trim_chars(s: &[char], k: TrimKind) -> (r: Vec<char>)
    ensures
        r@ == trim_by(s@, trim_pred(k)),
{
    let ghost p = trim_pred(k);
    let mut lo: usize = 0;
    assert(s@.skip(0) =~= s@);
    while lo < s.len() && trims(s[lo], &k)
        invariant
            lo <= s@.len(),
            p == trim_pred(k),
            lead_len(s@, p) == lo + lead_len(s@.skip(lo as int), p),
        decreases s@.len() - lo,
    {
        assert(s@.skip(lo as int).drop_first() =~= s@.skip(lo + 1));
        lo = lo + 1;
    }
    let ghost t = s@.skip(lo as int);
    assert(lead_len(t, p) == 0);
    let mut hi: usize = s.len();
    while hi > lo && trims(s[hi - 1], &k)
        invariant
            lo <= hi <= s@.len(),
            p == trim_pred(k),
            t == s@.skip(lo as int),
            trail_len(t, p) == (s@.len() - hi) + trail_len(s@.subrange(lo as int, hi as int), p),
        decreases hi - lo,
    {
        assert(s@.subrange(lo as int, hi as int).drop_last() =~= s@.subrange(lo as int, hi - 1));
        hi = hi - 1;
    }
    assert(trail_len(s@.subrange(lo as int, hi as int), p) == 0);
    assert(s@.subrange(lo as int, s@.len() as int) =~= t);
    assert(t.take(t.len() - trail_len(t, p)) =~= s@.subrange(lo as int, hi as int));
    slice_chars(s, lo, hi)
}

/// What `str::trim` gives, as a `String`.
pub fn trimmed(s: &[char]) -> (r: String)
    ensures
        r@ == trim(s@),
{
    let v = trim_chars(s, TrimKind::Whitespace);
    string_of(&v)
}

// ---------------------------------------------------------------------------
// Searching.

/// Whether `pat` occurs in `s` at position `i`.
pub open spec fn occurs_at(s: Seq<char>, pat: Seq<char>, i: int) -> bool {
    0 <= i && i + pat.len() <= s.len() && s.subrange(i, i + pat.len()) == pat
}

/// Whether `pat` occurs anywhere in `s` (what `str::contains` computes).
pub open spec fn contains_seq(s: Seq<char>, pat: Seq<char>) -> bool {
    exists|i: int| occurs_at(s, pat, i)
}

/// Whether `s` begins with `pat` (what `str::starts_with` computes).
pub open spec fn starts_with(s: Seq<char>, pat: Seq<char>) -> bool {
    occurs_at(s, pat, 0)
}

fn matches_at(s: &[char], pat: &[char], i: usize) -> (b: bool)
    requires
        i <= s@.len(),
    ensures
        b == occurs_at(s@, pat@, i as int),
{
    let n = s.len();
    if pat.len() > n - i {
        return false;
    }
    let mut k: usize = 0;
    while k < pat.len()
        invariant
            n == s@.len(),
            i + pat@.len() <= s@.len(),
            k <= pat@.len(),
            forall|j: int| 0 <= j < k ==> s@[i + j] == pat@[j],
        decreases pat@.len() - k,
    {
        if s[i + k] != pat[k] {
            assert(s@.subrange(i as int, i + pat@.len())[k as int] != pat@[k as int]);
            return false;
        }
        k = k + 1;
    }
    assert(s@.subrange(i as int, i + pat@.len()) =~= pat@);
    true
}

/// The first position at which `pat` occurs in `s`, if any.
pub fn find_seq(s: &[char], pat: &[char]) -> (r: Option<usize>)
    ensures
        match r {
            Some(i) => occurs_at(s@, pat@, i as int) && forall|j: int|
                0 <= j < i ==> !occurs_at(s@, pat@, j),
            None => !contains_seq(s@, pat@),
        },
{
    let n = s.len();
    let mut i: usize = 0;
    while i < n
        invariant
            n == s@.len(),
            i <= n,
            forall|j: int| 0 <= j < i ==> !occurs_at(s@, pat@, j),
        decreases n - i,
    {
        if matches_at(s, pat, i) {
            return Some(i);
        }
        i = i + 1;
    }
    if matches_at(s, pat, n) {
        return Some(n);
    }
    assert forall|j: int| !occurs_at(s@, pat@, j) by {
        if 0 <= j && j < n {
        }
    }
    None
}

/// `i` is the first position at which `pat` occurs in `s`.
pub open spec fn is_first_occurrence(s: Seq<char>, pat: Seq<char>, i: int) -> bool {
    occurs_at(s, pat, i) && forall|j: int| 0 <= j < i ==> !occurs_at(s, pat, j)
}

/// The first position at which `pat` occurs in `s` (meaningful when it
/// occurs at all).
pub open spec fn first_occurrence(s: Seq<char>, pat: Seq<char>) -> int {
    choose|i: int| is_first_occurrence(s, pat, i)
}

/// What follows the first occurrence of `pat` in `s`, if `pat` occurs:
/// the second piece that `splitn(2, pat)` yields.
pub open spec fn after_first(s: Seq<char>, pat: Seq<char>) -> Option<Seq<char>> {
    if contains_seq(s, pat) {
        Some(s.skip(first_occurrence(s, pat) + pat.len()))
    } else {
        None
    }
}

/// What precedes the first occurrence of `pat` in `s`, or all of `s`: the
/// first piece that `split(pat)` yields.
pub open spec fn before_first(s: Seq<char>, pat: Seq<char>) -> Seq<char> {
    if contains_seq(s, pat) {
        s.take(first_occurrence(s, pat))
    } else {
        s
    }
}

proof fn lemma_first_occurrence(s: Seq<char>, pat: Seq<char>, i: int)
    requires
        is_first_occurrence(s, pat, i),
    ensures
        first_occurrence(s, pat) == i,
        contains_seq(s, pat),
{
    let k = first_occurrence(s, pat);
    assert(is_first_occurrence(s, pat, k));
    if k < i {
        assert(!occurs_at(s, pat, k));
    }
    if i < k {
        assert(!occurs_at(s, pat, i));
    }
}

/// The pieces before and after the first occurrence of `pat` in `s`.
pub fn split_once(s: &[char], pat: &[char]) -> (r: Option<(Vec<char>, Vec<char>)>)
    ensures
        match r {
            Some((a, b)) => contains_seq(s@, pat@) && a@ == before_first(s@, pat@)
                && Some(b@) == after_first(s@, pat@),
            None => !contains_seq(s@, pat@) && after_first(s@, pat@) is None,
        },
{
    match find_seq(s, pat) {
        Some(i) => {
            proof {
                lemma_first_occurrence(s@, pat@, i as int);
            }
            let n = s.len();
            assert(i + pat@.len() <= n);
            let a = slice_chars(s, 0, i);
            let b = slice_chars(s, i + pat.len(), n);
            assert(a@ =~= s@.take(i as int));
            assert(b@ =~= s@.skip(i + pat@.len()));
            Some((a, b))
        },
        None => None,
    }
}

/// The first piece that `split(pat)` yields.
pub fn before_first_chars(s: &[char], pat: &[char]) -> (r: Vec<char>)
    ensures
        r@ == before_first(s@, pat@),
{
    match split_once(s, pat) {
        Some((a, _)) => a,
        None => {
            let r = slice_chars(s, 0, s.len());
            assert(r@ =~= s@);
            r
        },
    }
}

/// Whether `pat` occurs in `s`.
pub fn contains_chars(s: &[char], pat: &[char]) -> (b: bool)
    ensures
        b == contains_seq(s@, pat@),
{
    match find_seq(s, pat) {
        Some(_) => true,
        None => false,
    }
}

/// `s` without the prefix `pat`, when `s` begins with it.
pub fn strip_prefix(s: &[char], pat: &[char]) -> (r: Option<Vec<char>>)
    ensures
        match r {
            Some(rest) => starts_with(s@, pat@) && rest@ == s@.skip(pat@.len() as int),
            None => !starts_with(s@, pat@),
        },
{
    if matches_at(s, pat, 0) {
        let rest = slice_chars(s, pat.len(), s.len());
        assert(rest@ =~= s@.skip(pat@.len() as int));
        Some(rest)
    } else {
        None
    }
}

// ---------------------------------------------------------------------------
// Splitting into words and lines.

/// One step of the word scanner: finished words, and the word being read.
pub open spec fn word_step(st: (Seq<Seq<char>>, Seq<char>), c: char) -> (Seq<Seq<char>>, Seq<char>) {
    if is_ws(c) {
        if st.1.len() > 0 {
            (st.0.push(st.1), Seq::empty())
        } else {
            (st.0, Seq::empty())
        }
    } else {
        (st.0, st.1.push(c))
    }
}

/// The word scanner's state after reading all of `s`.
pub open spec fn word_scan(s: Seq<char>) -> (Seq<Seq<char>>, Seq<char>)
    decreases s.len(),
{
    if s.len() == 0 {
        (Seq::empty(), Seq::empty())
    } else {
        word_step(word_scan(s.drop_last()), s.last())
    }
}

/// The maximal runs of non-whitespace characters of `s`, in order: what
/// `str::split_whitespace` yields.
pub open spec fn words(s: Seq<char>) -> Seq<Seq<char>> {
    let st = word_scan(s);
    if st.1.len() > 0 {
        st.0.push(st.1)
    } else {
        st.0
    }
}

/// The texts of a sequence of strings.
pub open spec fn string_views(v: Seq<String>) -> Seq<Seq<char>> {
    v.map_values(|s: String| s@)
}

/// The views of a vector of character vectors.
pub open spec fn views(v: Seq<Vec<char>>) -> Seq<Seq<char>> {
    v.map_values(|x: Vec<char>| x@)
}

/// The words of `s` (see [`words`]).
pub fn split_words(s: &[char]) -> (r: Vec<Vec<char>>)
    ensures
        views(r@) == words(s@),
{
    let mut done: Vec<Vec<char>> = Vec::new();
    let mut cur: Vec<char> = Vec::new();
    let mut i: usize = 0;
    while i < s.len()
        invariant
            i <= s@.len(),
            (views(done@), cur@) == word_scan(s@.take(i as int)),
        decreases s@.len() - i,
    {
        assert(s@.take(i + 1).drop_last() =~= s@.take(i as int));
        let c = s[i];
        if char_is_whitespace(c) {
            if cur.len() > 0 {
                let w = cur;
                done.push(w);
                cur = Vec::new();
            } else {
                cur = Vec::new();
            }
        } else {
            cur.push(c);
        }
        proof {
            assert(views(done@) =~= word_step(word_scan(s@.take(i as int)), c).0);
            assert(cur@ =~= word_step(word_scan(s@.take(i as int)), c).1);
        }
        i = i + 1;
    }
    assert(s@.take(i as int) =~= s@);
    if cur.len() > 0 {
        done.push(cur);
    }
    assert(views(done@) =~= words(s@));
    done
}

/// One step of the line scanner: finished lines, and the line being read.
pub open spec fn line_step(st: (Seq<Seq<char>>, Seq<char>), c: char) -> (Seq<Seq<char>>, Seq<char>) {
    if c == '\n' {
        let line = if st.1.len() > 0 && st.1.last() == '\r' {
            st.1.drop_last()
        } else {
            st.1
        };
        (st.0.push(line), Seq::empty())
    } else {
        (st.0, st.1.push(c))
    }
}

/// The line scanner's state after reading all of `s`.
pub open spec fn line_scan(s: Seq<char>) -> (Seq<Seq<char>>, Seq<char>)
    decreases s.len(),
{
    if s.len() == 0 {
        (Seq::empty(), Seq::empty())
    } else {
        line_step(line_scan(s.drop_last()), s.last())
    }
}

/// The lines of `s`, as `str::lines` yields them: split after each `'\n'`,
/// that `'\n'` and one `'\r'` before it removed; a last line without a
/// `'\n'` is kept as it is, and an empty remainder gives no line.
pub open spec fn lines(s: Seq<char>) -> Seq<Seq<char>> {
    let st = line_scan(s);
    if st.1.len() > 0 {
        st.0.push(st.1)
    } else {
        st.0
    }
}

/// The lines of `s` (see [`lines`]).
pub fn split_lines(s: &[char]) -> (r: Vec<Vec<char>>)
    ensures
        views(r@) == lines(s@),
{
    let mut done: Vec<Vec<char>> = Vec::new();
    let mut cur: Vec<char> = Vec::new();
    let mut i: usize = 0;
    while i < s.len()
        invariant
            i <= s@.len(),
            (views(done@), cur@) == line_scan(s@.take(i as int)),
        decreases s@.len() - i,
    {
        assert(s@.take(i + 1).drop_last() =~= s@.take(i as int));
        let c = s[i];
        if c == '\n' {
            let mut line = cur;
            if line.len() > 0 && line[line.len() - 1] == '\r' {
                line.pop();
            }
            done.push(line);
            cur = Vec::new();
        } else {
            cur.push(c);
        }
        proof {
            assert(views(done@) =~= line_step(line_scan(s@.take(i as int)), c).0);
            assert(cur@ =~= line_step(line_scan(s@.take(i as int)), c).1);
        }
        i = i + 1;
    }
    assert(s@.take(i as int) =~= s@);
    if cur.len() > 0 {
        done.push(cur);
    }
    assert(views(done@) =~= lines(s@));
    done
}

} // verus!
