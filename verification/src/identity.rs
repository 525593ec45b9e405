//! Per-install node identity: an ed25519 secret key whose public key, in
//! hex, is this install's node id.
//!
//! The key file is read and written by the application shell; this module
//! decides what the stored bytes mean and derives the ids.
use vstd::prelude::*;
use crate::text::{chars_of, decimal, slice_chars, string_of};
use crate::types::GosError;

verus! {

/// The ed25519 public key of the secret key `secret`.
pub uninterp spec fn ed25519_public_key(secret: Seq<u8>) -> Seq<u8>;

/// `SigningKey::from_bytes(secret).verifying_key().to_bytes()`: the public
/// key of a 32-byte ed25519 secret key; it depends on the secret alone.
#[verifier::external_body]
fn public_key_of(secret: &[u8; 32]) -> (pk: [u8; 32])
    ensures
        pk@ == ed25519_public_key(secret@),
{
    ed25519_dalek::SigningKey::from_bytes(secret).verifying_key().to_bytes()
}

/// `SigningKey::generate(&mut OsRng).to_bytes()`: a fresh secret key drawn
/// from the operating system's random source. Nothing is stated of its bytes.
#[verifier::external_body]
fn fresh_secret_key() -> (secret: [u8; 32]) {
    ed25519_dalek::SigningKey::generate(&mut rand::rngs::OsRng).to_bytes()
}

/// The lower-case hex digit for `n < 16`.
pub open spec fn hex_digit(n: nat) -> char {
    if n == 0 { '0' } else if n == 1 { '1' } else if n == 2 { '2' } else if n == 3 { '3' }
    else if n == 4 { '4' } else if n == 5 { '5' } else if n == 6 { '6' } else if n == 7 { '7' }
    else if n == 8 { '8' } else if n == 9 { '9' } else if n == 10 { 'a' } else if n == 11 { 'b' }
    else if n == 12 { 'c' } else if n == 13 { 'd' } else if n == 14 { 'e' } else { 'f' }
}

/// Lower-case hex of `b`: two digits per byte, high nibble first.
pub open spec fn hex_lower(b: Seq<u8>) -> Seq<char>
    decreases b.len(),
{
    if b.len() == 0 {
        Seq::empty()
    } else {
        hex_lower(b.drop_last()) + seq![hex_digit((b.last() / 16) as nat), hex_digit((b.last() % 16) as nat)]
    }
}

/// `hex::encode`: lower-case hex of the bytes, two digits per byte, high
/// nibble first.
#[verifier::external_body]
fn hex_encode(bytes: &[u8]) -> (s: String)
    ensures
        s@ == hex_lower(bytes@),
{
    hex::encode(bytes)
}

/// A character that `char::is_ascii_hexdigit` accepts.
pub open spec fn is_hex_char(c: char) -> bool {
    ('0' <= c && c <= '9') || ('a' <= c && c <= 'f') || ('A' <= c && c <= 'F')
}

/// Hex of `b` has two characters per byte, each a hex digit.
pub proof fn lemma_hex_lower_shape(b: Seq<u8>)
    ensures
        hex_lower(b).len() == 2 * b.len(),
        forall|i: int| 0 <= i < hex_lower(b).len() ==> is_hex_char(#[trigger] hex_lower(b)[i]),
    decreases b.len(),
{
    if b.len() > 0 {
        lemma_hex_lower_shape(b.drop_last());
        let h = hex_lower(b.drop_last());
        let t = seq![hex_digit((b.last() / 16) as nat), hex_digit((b.last() % 16) as nat)];
        assert forall|i: int| 0 <= i < hex_lower(b).len() implies is_hex_char(#[trigger] hex_lower(b)[i]) by {
            if i < h.len() {
                assert(hex_lower(b)[i] == h[i]);
            } else {
                assert(hex_lower(b)[i] == t[i - h.len()]);
            }
        }
    }
}

/// The node id of the secret key `secret`: hex of its public key.
pub open spec fn node_id_of(secret: Seq<u8>) -> Seq<char> {
    hex_lower(ed25519_public_key(secret))
}

/// The short form of a node id: its first six characters, an ellipsis, its
/// last four.
pub open spec fn short_form(full: Seq<char>) -> Seq<char> {
    full.take(6) + seq!['\u{2026}'] + full.skip(full.len() - 4)
}

/// The stored key file of `raw` bytes, when it holds a secret key.
pub open spec fn stored_secret(raw: Seq<u8>) -> Option<Seq<u8>> {
    if raw.len() == 32 { Some(raw) } else { None }
}

/// The text of the error for a key file of the wrong size.
pub open spec fn corrupt_identity_text(path: Seq<char>, len: nat) -> Seq<char> {
    "identity file "@ + path + " is corrupt ("@ + decimal(len) + " bytes)"@
}

pub struct NodeIdentity {
    secret: [u8; 32],
}

impl View for NodeIdentity {
    type V = Seq<u8>;

    /// The secret key.
    closed spec fn view(&self) -> Seq<u8> {
        self.secret@
    }
}

impl NodeIdentity {
    /// A new identity with a fresh random secret key.
    pub fn generate() -> (id: Self)
        ensures
            id@.len() == 32,
    {
        NodeIdentity { secret: fresh_secret_key() }
    }

    /// The identity a key file holds: its 32 bytes are the secret key; a file
    /// of another size is corrupt. `path` names the file in the error.
    pub fn from_stored(raw: &[u8], path: &str) -> (r: Result<Self, GosError>)
        ensures
            match stored_secret(raw@) {
                Some(secret) => r matches Ok(id) && id@ == secret,
                None => r matches Err(GosError::Other(m)) && m@ == corrupt_identity_text(
                    path@,
                    raw@.len(),
                ),
            },
    {
        if raw.len() != 32 {
            let mut m = "identity file ".to_owned();
            m.push_str(path);
            m.push_str(" is corrupt (");
            crate::text::push_decimal(&mut m, raw.len() as u64);
            m.push_str(" bytes)");
            return Err(GosError::Other(m));
        }
        let mut secret = [0u8; 32];
        let mut i: usize = 0;
        while i < 32
            invariant
                raw@.len() == 32,
                i <= 32,
                forall|j: int| 0 <= j < i ==> secret@[j] == raw@[j],
            decreases 32 - i,
        {
            secret[i] = raw[i];
            i = i + 1;
        }
        assert(secret@ =~= raw@);
        Ok(NodeIdentity { secret })
    }

    /// The secret key bytes, as the key file stores them.
    pub fn secret_bytes(&self) -> (b: [u8; 32])
        ensures
            b@ == self@,
    {
        self.secret
    }

    /// Hex-encoded public key: the stable id for this install.
    pub fn node_id(&self) -> (s: String)
        ensures
            s@ == node_id_of(self@),
            s@.len() == 64,
            forall|i: int| 0 <= i < 64 ==> is_hex_char(#[trigger] s@[i]),
    {
        let pk = public_key_of(&self.secret);
        proof {
            lemma_hex_lower_shape(pk@);
        }
        hex_encode(&pk)
    }

    /// A short, human-friendly form of the node id for the UI.
    pub fn short_id(&self) -> (s: String)
        ensures
            s@ == short_form(node_id_of(self@)),
    {
        let full = self.node_id();
        let cs = chars_of(full.as_str());
        let n = cs.len();
        let mut out = slice_chars(&cs, 0, 6);
        out.push('\u{2026}');
        let tail = slice_chars(&cs, n - 4, n);
        let mut k: usize = 0;
        let ghost head = out@;
        while k < tail.len()
            invariant
                k <= tail@.len(),
                out@ == head + tail@.take(k as int),
            decreases tail@.len() - k,
        {
            out.push(tail[k]);
            k = k + 1;
        }
        assert(tail@.take(tail@.len() as int) =~= tail@);
        assert(out@ =~= short_form(full@));
        string_of(&out)
    }
}

/// The identity persists: storing the secret key and reading the file back
/// gives the same key, hence the same node id.
pub proof fn lemma_identity_persists(secret: Seq<u8>)
    requires
        secret.len() == 32,
    ensures
        stored_secret(secret) == Some(secret),
        node_id_of(stored_secret(secret).unwrap()) == node_id_of(secret),
{
}

} // verus!
