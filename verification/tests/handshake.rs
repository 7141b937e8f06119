use trueseal_noise::cipher::CipherState;
use trueseal_noise::handshake::HandshakeState;
use trueseal_noise::keypair::{generate_keypair, Keypair};

/// Drives a full XX handshake using in-memory byte buffers as the transport.
fn run_handshake(
    init_s: Keypair,
    resp_s: Keypair,
    init_e: Keypair,
    resp_e: Keypair,
    prologue: &[u8],
    payload0: &[u8],
    payload1: &[u8],
    payload2: &[u8],
) -> ([u8; 32], [u8; 32], CipherState, CipherState, CipherState, CipherState) {
    let mut hs_i = HandshakeState::new_fixed(init_s, init_e, prologue);
    let mut hs_r = HandshakeState::new_fixed(resp_s, resp_e, prologue);

    // msg0: initiator -> responder
    let msg0 = hs_i.write_msg0(payload0);
    hs_r.read_msg0(&msg0).unwrap();

    // msg1: responder -> initiator
    let msg1 = hs_r.write_msg1(payload1);
    hs_i.read_msg1(&msg1).unwrap();

    // msg2: initiator -> responder (produces cipher states)
    let (msg2, i_fi, i_fr, i_hash, _) = hs_i.write_msg2(payload2);
    let (r_fi, r_fr, r_hash, _) = hs_r.read_msg2(&msg2).unwrap();

    (i_hash, r_hash, i_fi, i_fr, r_fi, r_fr)
}

/// Tracer bullet: full XX handshake completes and cipher states work.
#[test]
fn handshake_completes_and_cipher_states_work() {
    let init_s = generate_keypair();
    let resp_s = generate_keypair();
    let init_e = generate_keypair();
    let resp_e = generate_keypair();

    let (_, _, mut i_fi, mut i_fr, mut r_fi, mut r_fr) =
        run_handshake(init_s, resp_s, init_e, resp_e, &[], &[], &[], &[]);

    // Initiator sends on fromInitiator; responder receives on fromInitiator.
    let ct = i_fi.encrypt(&[], b"hello");
    let pt = r_fi.decrypt(&[], &ct).expect("decrypt failed");
    assert_eq!(pt, b"hello");

    // Responder sends on fromResponder; initiator receives on fromResponder.
    let ct2 = r_fr.encrypt(&[], b"world");
    let pt2 = i_fr.decrypt(&[], &ct2).expect("decrypt failed");
    assert_eq!(pt2, b"world");
}

/// Both sides reach the same handshake hash and learn each other's static key,
/// with payloads and a prologue.
#[test]
fn xx_hashes_agree_and_static_keys_are_learned() {
    let init_s = generate_keypair();
    let resp_s = generate_keypair();
    let i_pub = init_s.public_key;
    let r_pub = resp_s.public_key;
    let mut hs_i = HandshakeState::new_fixed(init_s, generate_keypair(), b"prologue");
    let mut hs_r = HandshakeState::new_fixed(resp_s, generate_keypair(), b"prologue");
    let msg0 = hs_i.write_msg0(b"zero");
    assert_eq!(msg0.len(), 32 + 4);
    hs_r.read_msg0(&msg0).unwrap();
    let msg1 = hs_r.write_msg1(b"one");
    assert_eq!(msg1.len(), 32 + 48 + 3 + 16);
    hs_i.read_msg1(&msg1).unwrap();
    assert_eq!(hs_i.remote_static(), r_pub);
    let (msg2, _, _, i_hash, i_rs) = hs_i.write_msg2(b"two");
    assert_eq!(msg2.len(), 48 + 3 + 16);
    let (_, _, r_hash, r_rs) = hs_r.read_msg2(&msg2).unwrap();
    assert_eq!(i_hash, r_hash);
    assert_eq!(i_rs, r_pub);
    assert_eq!(r_rs, i_pub);
}

/// Different prologues make the second message fail to authenticate.
#[test]
fn xx_prologue_mismatch_is_detected() {
    let mut hs_i = HandshakeState::new_fixed(generate_keypair(), generate_keypair(), b"a");
    let mut hs_r = HandshakeState::new_fixed(generate_keypair(), generate_keypair(), b"b");
    let msg0 = hs_i.write_msg0(&[]);
    hs_r.read_msg0(&msg0).unwrap();
    let msg1 = hs_r.write_msg1(&[]);
    let err = hs_i.read_msg1(&msg1).unwrap_err();
    assert_eq!(err, "noise: SymmetricState decrypt: noise: decrypt failed: authentication error");
}

#[test]
fn xx_short_messages_are_refused() {
    let mut hs_r = HandshakeState::new_fixed(generate_keypair(), generate_keypair(), &[]);
    assert_eq!(hs_r.read_msg0(&[0u8; 10]).unwrap_err(), "noise: msg0 too short: got 10 bytes");
    let mut hs_i = HandshakeState::new_fixed(generate_keypair(), generate_keypair(), &[]);
    assert_eq!(hs_i.read_msg1(&[0u8; 31]).unwrap_err(), "noise: msg1 too short");
    let mut hs_i = HandshakeState::new_fixed(generate_keypair(), generate_keypair(), &[]);
    assert_eq!(hs_i.read_msg1(&[9u8; 40]).unwrap_err(), "noise: msg1 missing encrypted static key");
}

#[test]
fn xx_third_message_too_short_is_refused() {
    let mut hs_i = HandshakeState::new_fixed(generate_keypair(), generate_keypair(), &[]);
    let mut hs_r = HandshakeState::new_fixed(generate_keypair(), generate_keypair(), &[]);
    let msg0 = hs_i.write_msg0(&[]);
    hs_r.read_msg0(&msg0).unwrap();
    let _msg1 = hs_r.write_msg1(&[]);
    let err = hs_r.read_msg2(&[0u8; 47]).err().unwrap();
    assert_eq!(err, "noise: msg2 missing encrypted static key");
}

/// NK: the initiator knows the responder's key; both sides agree.
#[test]
fn nk_handshake_agrees() {
    let resp_s = generate_keypair();
    let r_pub = resp_s.public_key;
    let mut hs_i = HandshakeState::new_nk_fixed(generate_keypair(), generate_keypair(), &[], Some(r_pub));
    let mut hs_r = HandshakeState::new_nk_fixed(resp_s, generate_keypair(), &[], None);
    let msg0 = hs_i.write_nk_msg0(b"hi");
    assert_eq!(msg0.len(), 32 + 2 + 16);
    hs_r.read_nk_msg0(&msg0).unwrap();
    let (msg1, mut r_fi, mut r_fr, r_hash) = hs_r.write_nk_msg1(&[]);
    let (mut i_fi, mut i_fr, i_hash) = hs_i.read_nk_msg1(&msg1).unwrap();
    assert_eq!(i_hash, r_hash);
    let ct = i_fi.encrypt(&[], b"ping");
    assert_eq!(r_fi.decrypt(&[], &ct).unwrap(), b"ping");
    let ct = r_fr.encrypt(&[], b"pong");
    assert_eq!(i_fr.decrypt(&[], &ct).unwrap(), b"pong");
}

/// NK with a wrong responder key fails at the responder.
#[test]
fn nk_wrong_remote_static_is_detected() {
    let resp_s = generate_keypair();
    let wrong = generate_keypair().public_key;
    let mut hs_i = HandshakeState::new_nk_fixed(generate_keypair(), generate_keypair(), &[], Some(wrong));
    let mut hs_r = HandshakeState::new_nk_fixed(resp_s, generate_keypair(), &[], None);
    let msg0 = hs_i.write_nk_msg0(&[]);
    assert_eq!(hs_r.read_nk_msg0(&msg0).unwrap_err(), "noise: read msg0: Decrypt");
    assert_eq!(hs_r.read_nk_msg0(&msg0[..20]).unwrap_err(), "noise: read msg0: Input");
}
