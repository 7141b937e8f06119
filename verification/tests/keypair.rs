use trueseal_noise::keypair::{clamp, dh, generate_keypair, keypair_from_seed, Keypair};

/// Tracer bullet: generate_keypair returns a non-zero public key.
#[test]
fn generate_keypair_produces_valid_keys() {
    let kp = generate_keypair();
    assert_ne!(kp.public_key, [0u8; 32], "public key should not be all-zero");
    assert_ne!(kp.private(), [0u8; 32], "private key should not be all-zero");
}

/// RFC 7748 clamping is applied: specific bits of the private key are set/cleared.
#[test]
fn generated_private_key_is_clamped() {
    let kp = generate_keypair();
    let priv_key = kp.private();
    assert_eq!(priv_key[0] & 7, 0, "low 3 bits of byte 0 must be 0");
    assert_eq!(priv_key[31] & 128, 0, "high bit of byte 31 must be 0");
    assert_eq!(priv_key[31] & 64, 64, "second-high bit of byte 31 must be 1");
}

/// new_keypair restores a keypair from raw bytes: private() returns the stored private key.
#[test]
fn new_keypair_restores_from_bytes() {
    let kp = generate_keypair();
    let priv_bytes = kp.private();
    let pub_bytes = kp.public_key;

    let restored = Keypair::new(priv_bytes, pub_bytes);
    assert_eq!(restored.private(), priv_bytes);
    assert_eq!(restored.public_key, pub_bytes);
}

/// DH is commutative: DH(a_priv, b_pub) == DH(b_priv, a_pub).
#[test]
fn dh_is_commutative() {
    let a = generate_keypair();
    let b = generate_keypair();

    let shared_ab = dh(a.private(), b.public_key);
    let shared_ba = dh(b.private(), a.public_key);

    assert_eq!(shared_ab, shared_ba, "DH should be commutative");
}

#[test]
fn clamp_fixes_exactly_three_bits() {
    let clamped = clamp([0xffu8; 32]);
    assert_eq!(clamped[0], 0xf8);
    assert_eq!(clamped[31], 0x7f);
    assert!(clamped[1..31].iter().all(|b| *b == 0xff));
    let clamped = clamp([0u8; 32]);
    assert_eq!(clamped[0], 0);
    assert_eq!(clamped[31], 0x40);
}

/// RFC 7748 §6.1: Alice's private key and public key.
#[test]
fn keypair_from_seed_matches_rfc7748_vector() {
    let seed = hex32("77076d0a7318a57d3c16c17251b26645df4c2f87ebc0992ab177fba51db92c2a");
    let kp = keypair_from_seed(seed);
    assert_eq!(kp.public_key, hex32("8520f0098930a754748b7ddcb43ef75a0dbf3a0d26381af4eba4a98eaa9b4e6a"));
    assert_eq!(kp.private(), clamp(seed));
}

/// RFC 7748 §6.1: the shared secret of Alice and Bob.
#[test]
fn dh_matches_rfc7748_vector() {
    let alice = hex32("77076d0a7318a57d3c16c17251b26645df4c2f87ebc0992ab177fba51db92c2a");
    let bob_pub = hex32("de9edb7d7b7dc1b4d35b61c2ece435373f8343c85b78674dadfc7e146f882b4f");
    assert_eq!(
        dh(alice, bob_pub),
        hex32("4a5d9d5ba4ce2de1728e3bf480350f25e07e21c947d19e3376f09b3c1e161742")
    );
}

fn hex32(s: &str) -> [u8; 32] {
    let mut out = [0u8; 32];
    for i in 0..32 {
        out[i] = u8::from_str_radix(&s[2 * i..2 * i + 2], 16).unwrap();
    }
    out
}
