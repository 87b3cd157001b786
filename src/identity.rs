//! The node's network identity: a keypair, loaded from a configured private
//! key or freshly generated, and the peer id derived from its public half.
use libp2p::identity::Keypair;
use crate::codec::{base64_decoded, decode_base64};
use vstd::prelude::*;
use vstd::utf8::encode_utf8;

verus! {

#[verifier::external_type_specification]
#[verifier::external_body]
pub struct ExKeypair(Keypair);

/// The bytes of the peer id of the keypair whose protobuf encoding is `b`, or
/// `None` where `b` encodes no keypair.
pub uninterp spec fn peer_id_of_encoding(b: Seq<u8>) -> Option<Seq<u8>>;

/// Relies on libp2p's Keypair::from_protobuf_encoding, and on the peer id that
/// libp2p derives from the public half of the keypair it returns.
#[verifier::external_body]
fn keypair_from_protobuf(bytes: &[u8]) -> (r: Option<(Keypair, Vec<u8>)>)
    ensures
        r is Some <==> peer_id_of_encoding(bytes@) is Some,
        r is Some ==> peer_id_of_encoding(bytes@) == Some(r->Some_0.1@),
{
    match Keypair::from_protobuf_encoding(bytes) {
        Ok(keypair) => {
            let peer_id = keypair.public().to_peer_id().to_bytes();
            Some((keypair, peer_id))
        },
        Err(_) => None,
    }
}

/// Relies on libp2p's Keypair::generate_ed25519, and on the peer id that
/// libp2p derives from its public half. The key is random; of every outcome,
/// the public key encodes to 36 protobuf bytes and so becomes an identity
/// multihash of 38 bytes, and the keypair's own protobuf encoding
/// (`to_protobuf_encoding`) decodes back to it.
#[verifier::external_body]
fn generate_ed25519() -> (r: (Keypair, Vec<u8>))
    ensures
        r.1@.len() == 38,
        exists|enc: Seq<u8>| peer_id_of_encoding(enc) == Some(r.1@),
{
    let keypair = Keypair::generate_ed25519();
    let peer_id = keypair.public().to_peer_id().to_bytes();
    (keypair, peer_id)
}

/// Relies on zeroize's impl for `String`: the bytes are overwritten with
/// zeros, then the string is cleared.
#[verifier::external_body]
fn wipe_string(s: &mut String)
    ensures
        final(s)@.len() == 0,
{
    zeroize::Zeroize::zeroize(s)
}

/// Relies on zeroize's impl for `Vec<u8>`: the bytes are overwritten with
/// zeros, then the vector is cleared.
#[verifier::external_body]
fn wipe_bytes(b: &mut Vec<u8>)
    ensures
        final(b)@.len() == 0,
{
    zeroize::Zeroize::zeroize(b)
}

/// The contents of an identity file: a base64 string whose decoding is a
/// protobuf-encoded private key.
pub struct IdentityConfig {
    pub private_key: String,
}

/// Why an identity file could not be turned into an identity.
#[derive(Debug, Clone, Copy, PartialEq, Eq, Structural)]
pub enum ConfigError {
    /// The private key is not valid base64.
    InvalidBase64,
    /// The decoded bytes are no protobuf-encoded keypair.
    InvalidKeypair,
}

/// A keypair and the bytes of the peer id derived from its public half.
pub struct Identity {
    pub keypair: Keypair,
    pub peer_id: Vec<u8>,
}

/// The peer id that an identity file with private key `private_key` yields:
/// the key's UTF-8 bytes are decoded as base64, then as a keypair.
pub open spec fn loaded_peer_id(private_key: Seq<char>) -> Option<Seq<u8>> {
    match base64_decoded(encode_utf8(private_key)) {
        Some(bytes) => peer_id_of_encoding(bytes),
        None => None,
    }
}

impl IdentityConfig {
    /// Overwrites the private key with zeros and empties it.
    pub fn zeroize(&mut self)
        ensures
            final(self).private_key@.len() == 0,
    {
        wipe_string(&mut self.private_key);
    }

    /// Turns the configured private key into an identity. On every path the
    /// key text and its decoded bytes are wiped before they are released.
    pub fn into_identity(&mut self) -> (r: Result<Identity, ConfigError>)
        ensures
            final(self).private_key@.len() == 0,
            r is Ok <==> loaded_peer_id(old(self).private_key@) is Some,
            r is Ok ==> loaded_peer_id(old(self).private_key@) == Some(r->Ok_0.peer_id@),
            r == Err::<Identity, ConfigError>(ConfigError::InvalidBase64) <==> base64_decoded(
                encode_utf8(old(self).private_key@),
            ) is None,
    {
        let decoded = decode_base64(self.private_key.as_str().as_bytes());
        self.zeroize();
        match decoded {
            None => Err(ConfigError::InvalidBase64),
            Some(mut bytes) => {
                let keypair = keypair_from_protobuf(bytes.as_slice());
                wipe_bytes(&mut bytes);
                match keypair {
                    Some((keypair, peer_id)) => Ok(Identity { keypair, peer_id }),
                    None => Err(ConfigError::InvalidKeypair),
                }
            },
        }
    }
}

/// A fresh, random Ed25519 identity: its peer id is the 38-byte one derived
/// from its public half, which some keypair encoding would load to.
pub fn generate_identity() -> (r: Identity)
    ensures
        r.peer_id@.len() == 38,
        exists|enc: Seq<u8>| peer_id_of_encoding(enc) == Some(r.peer_id@),
{
    let (keypair, peer_id) = generate_ed25519();
    Identity { keypair, peer_id }
}

/// Loading one identity file twice yields the same peer id.
pub proof fn lemma_load_is_deterministic(a: IdentityConfig, b: IdentityConfig)
    requires
        a.private_key@ == b.private_key@,
    ensures
        loaded_peer_id(a.private_key@) == loaded_peer_id(b.private_key@),
{
}

} // verus!
