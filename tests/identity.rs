use libp2p::identity::Keypair;
use p2p_bootstrap::identity::{generate_identity, ConfigError, IdentityConfig};

fn fixed_keypair() -> Keypair {
    Keypair::ed25519_from_bytes([7u8; 32]).unwrap()
}

fn config_for(keypair: &Keypair) -> IdentityConfig {
    let encoded = keypair.to_protobuf_encoding().unwrap();
    IdentityConfig {
        private_key: base64::encode(encoded),
    }
}

#[test]
fn loaded_identity_has_the_reference_peer_id() {
    let keypair = fixed_keypair();
    let expected = keypair.public().to_peer_id().to_bytes();
    let mut config = config_for(&keypair);
    let identity = config.into_identity().unwrap();
    assert_eq!(identity.peer_id, expected);
    assert_eq!(identity.keypair.public().to_peer_id().to_bytes(), expected);
}

#[test]
fn loading_twice_gives_the_same_peer_id() {
    let keypair = fixed_keypair();
    let mut first = config_for(&keypair);
    let mut second = config_for(&keypair);
    let a = first.into_identity().unwrap();
    let b = second.into_identity().unwrap();
    assert_eq!(a.peer_id, b.peer_id);
}

#[test]
fn loading_wipes_the_private_key() {
    let mut config = config_for(&fixed_keypair());
    assert!(config.into_identity().is_ok());
    assert!(config.private_key.is_empty());

    let mut broken = IdentityConfig {
        private_key: "not base64!".to_string(),
    };
    assert!(broken.into_identity().is_err());
    assert!(broken.private_key.is_empty());
}

#[test]
fn corrupted_base64_is_a_config_error() {
    let mut config = config_for(&fixed_keypair());
    config.private_key.insert(3, '*');
    assert_eq!(config.into_identity().err(), Some(ConfigError::InvalidBase64));
}

#[test]
fn base64_of_no_keypair_is_a_config_error() {
    let mut config = IdentityConfig {
        private_key: base64::encode([1u8, 2, 3, 4]),
    };
    assert_eq!(config.into_identity().err(), Some(ConfigError::InvalidKeypair));
}

#[test]
fn generated_identities_differ() {
    let a = generate_identity();
    let b = generate_identity();
    assert_eq!(a.peer_id.len(), 38);
    assert_eq!(b.peer_id.len(), 38);
    assert_ne!(a.peer_id, b.peer_id);
    assert_eq!(a.keypair.public().to_peer_id().to_bytes(), a.peer_id);
}

#[test]
fn zeroize_empties_the_key() {
    let mut config = IdentityConfig {
        private_key: "c2VjcmV0".to_string(),
    };
    config.zeroize();
    assert_eq!(config.private_key, "");
}
