//! Static X25519 keypairs: construction, RFC 7748 clamping, generation and
//! Diffie-Hellman.
use vstd::prelude::*;
use rand::RngCore;

verus! {

/// The X25519 public key that `x25519-dalek` derives from a private key
/// (`PublicKey::from(&StaticSecret::from(private))`).
pub uninterp spec fn spec_x25519_public(private_key: Seq<u8>) -> Seq<u8>;

/// The X25519 shared secret that `x25519-dalek` computes from a private key
/// and a peer's public key (`StaticSecret::diffie_hellman`).
pub uninterp spec fn spec_x25519(private_key: Seq<u8>, public_key: Seq<u8>) -> Seq<u8>;

/// Calls `PublicKey::from(&StaticSecret::from(private_key))` of
/// `x25519-dalek`. Claimed: the result is `spec_x25519_public` of the private
/// key, a function of its bytes alone.
#[verifier::external_body]
fn x25519_public_key(private_key: [u8; 32]) -> (public_key: [u8; 32])
    ensures
        public_key@ == spec_x25519_public(private_key@),
{
    let secret = x25519_dalek::StaticSecret::from(private_key);
    *x25519_dalek::PublicKey::from(&secret).as_bytes()
}

/// Fills 32 bytes from `rand::thread_rng()`. Nothing is claimed of the bytes.
#[verifier::external_body]
fn random_bytes() -> (bytes: [u8; 32]) {
    let mut bytes = [0u8; 32];
    rand::thread_rng().fill_bytes(&mut bytes);
    bytes
}

/// Performs X25519 Diffie-Hellman: DH(private_key, public_key), by
/// `StaticSecret::from(priv_key).diffie_hellman(&PublicKey::from(pub_key))`
/// of `x25519-dalek`. Claimed: the shared secret is `spec_x25519` of the two
/// keys, a function of their bytes alone; and when the public key is the one
/// `x25519-dalek` derives from some 32-byte private key, the secret is the one
/// that private key computes with this side's derived public key (both are
/// the clamped product of the two private scalars with the base point:
/// `mul_clamped` of the peer's `mul_base_clamped`).
#[verifier::external_body]
pub fn dh(priv_key: [u8; 32], pub_key: [u8; 32]) -> (shared: [u8; 32])
    ensures
        shared@ == spec_x25519(priv_key@, pub_key@),
        forall|peer_priv: Seq<u8>|
            #![trigger spec_x25519_public(peer_priv)]
            peer_priv.len() == 32 && pub_key@ == spec_x25519_public(peer_priv)
                ==> shared@ == spec_x25519(peer_priv, spec_x25519_public(priv_key@)),
{
    let secret = x25519_dalek::StaticSecret::from(priv_key);
    let public = x25519_dalek::PublicKey::from(pub_key);
    *secret.diffie_hellman(&public).as_bytes()
}

/// The RFC 7748 clamping of 32 private-key bytes: the low three bits of byte
/// 0 and the high bit of byte 31 are cleared, the second-highest bit of byte
/// 31 is set.
pub open spec fn clamped(bytes: Seq<u8>) -> Seq<u8> {
    bytes.update(0, bytes[0] & 248u8).update(31, (bytes[31] & 127u8) | 64u8)
}

/// The bits that clamping fixes have their clamped values.
pub open spec fn is_clamped(key: Seq<u8>) -> bool {
    &&& key.len() == 32
    &&& key[0] & 7u8 == 0
    &&& key[31] & 128u8 == 0
    &&& key[31] & 64u8 == 64
}

/// Keypair is a static X25519 public/private key pair representing a peer's
/// long-term identity. `public_key` is public — safe to share. The private
/// key is accessible only via `private()` to reduce accidental exposure.
pub struct Keypair {
    private_key: [u8; 32],
    pub public_key: [u8; 32],
}

impl Keypair {
    /// The private key bytes.
    pub closed spec fn private_spec(&self) -> Seq<u8> {
        self.private_key@
    }

    /// The public key bytes.
    pub closed spec fn public_spec(&self) -> Seq<u8> {
        self.public_key@
    }

    /// The public key is the X25519 public key of the private key.
    pub open spec fn is_consistent(&self) -> bool {
        self.public_spec() == spec_x25519_public(self.private_spec())
    }

    /// Constructs a Keypair from raw private and public key bytes.
    /// Use this when restoring a previously serialised keypair.
    pub fn new(priv_key: [u8; 32], pub_key: [u8; 32]) -> (kp: Self)
        ensures
            kp.private_spec() == priv_key@,
            kp.public_spec() == pub_key@,
    {
        Self { private_key: priv_key, public_key: pub_key }
    }

    /// Returns the raw private key bytes.
    /// Handle with care — sensitive key material.
    pub fn private(&self) -> (k: [u8; 32])
        ensures
            k@ == self.private_spec(),
    {
        self.private_key
    }

    /// Returns the public key bytes.
    pub fn public(&self) -> (k: [u8; 32])
        ensures
            k@ == self.public_spec(),
    {
        self.public_key
    }
}

/// Applies RFC 7748 clamping to 32 private-key bytes.
pub fn clamp(bytes: [u8; 32]) -> (key: [u8; 32])
    ensures
        key@ == clamped(bytes@),
        is_clamped(key@),
{
    let mut key = bytes;
    let first: u8 = bytes[0];
    let last: u8 = bytes[31];
    let b0: u8 = first & 248;
    key[0] = b0;
    let b31: u8 = (last & 127) | 64;
    key[31] = b31;
    assert(b0 & 7u8 == 0) by (bit_vector)
        requires b0 == first & 248u8;
    assert(b31 & 128u8 == 0 && b31 & 64u8 == 64) by (bit_vector)
        requires b31 == (last & 127u8) | 64u8;
    assert(key@ =~= clamped(bytes@));
    key
}

/// The keypair whose private key is the clamping of `seed` and whose public
/// key is derived from it.
pub fn keypair_from_seed(seed: [u8; 32]) -> (kp: Keypair)
    ensures
        kp.private_spec() == clamped(seed@),
        is_clamped(kp.private_spec()),
        kp.is_consistent(),
{
    let private_key = clamp(seed);
    let public_key = x25519_public_key(private_key);
    Keypair { private_key, public_key }
}

/// Generates a fresh X25519 Keypair from a cryptographically secure random
/// source. Applies RFC 7748 clamping. Callers are responsible for persisting
/// the result.
pub fn generate_keypair() -> (kp: Keypair)
    ensures
        is_clamped(kp.private_spec()),
        kp.is_consistent(),
{
    keypair_from_seed(random_bytes())
}

} // verus!
