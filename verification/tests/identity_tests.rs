//! Tests of the node identity.

use gos::identity::NodeIdentity;
use gos::types::GosError;

fn rfc8032_secret() -> Vec<u8> {
    let hex = "9d61b19deffd5a60ba844af492ec2cc44449c5697b326919703bac031cae7f60";
    (0..32).map(|i| u8::from_str_radix(&hex[2 * i..2 * i + 2], 16).unwrap()).collect()
}

#[test]
fn node_id_is_hex_of_the_public_key() {
    let id = NodeIdentity::from_stored(&rfc8032_secret(), "key").unwrap();
    assert_eq!(id.node_id(), "d75a980182b10ab7d54bfed3c964073a0ee172f3daa62325af021a68f707511a");
    assert_eq!(id.short_id(), "d75a98\u{2026}511a");
}

#[test]
fn node_identity_round_trips_through_stored_bytes() {
    let first = NodeIdentity::generate();
    let stored = first.secret_bytes();
    let second = NodeIdentity::from_stored(&stored, "key").unwrap();
    let first_id = first.node_id();
    assert_eq!(first_id, second.node_id(), "node id must persist across loads");
    assert_eq!(first_id.len(), 64);
    assert!(first_id.chars().all(|c| c.is_ascii_hexdigit()));
    assert!(first.short_id().contains('\u{2026}'));
    assert_ne!(first_id, NodeIdentity::generate().node_id());
}

#[test]
fn stored_key_of_wrong_size_is_corrupt() {
    match NodeIdentity::from_stored(&[1, 2, 3], "/cfg/gos-identity.key") {
        Err(GosError::Other(m)) => assert_eq!(m, "identity file /cfg/gos-identity.key is corrupt (3 bytes)"),
        _ => panic!("expected a corrupt-file error"),
    }
    assert!(NodeIdentity::from_stored(&[0u8; 33], "k").is_err());
    assert!(NodeIdentity::from_stored(&[], "k").is_err());
}
