//! Byte-for-byte agreement with the `snow` implementation of the same
//! protocols, with fixed static and ephemeral keys.
use trueseal_noise::cipher::CipherState;
use trueseal_noise::handshake::HandshakeState;
use trueseal_noise::keypair::{keypair_from_seed, Keypair};

fn kp(seed: u8) -> Keypair {
    keypair_from_seed([seed; 32])
}

fn snow_builder(name: &str, prologue: &[u8]) -> snow::Builder<'static> {
    let params: snow::params::NoiseParams = name.parse().unwrap();
    let b = snow::Builder::new(params);
    let prologue: &'static [u8] = Box::leak(prologue.to_vec().into_boxed_slice());
    b.prologue(prologue)
}

fn leak(k: [u8; 32]) -> &'static [u8] {
    Box::leak(Box::new(k))
}

fn transport_check(mut ours_send: CipherState, theirs: &mut snow::TransportState, payload: &[u8]) {
    let ct = ours_send.encrypt(&[], payload);
    let mut out = vec![0u8; 65535];
    let n = theirs.read_message(&ct, &mut out).expect("snow reads our transport message");
    assert_eq!(&out[..n], payload);
}

#[test]
fn xx_matches_snow_byte_for_byte() {
    let (is, ie, rs, re) = (kp(1), kp(2), kp(3), kp(4));
    let prologue = b"john galt";
    let mut s_init = snow_builder("Noise_XX_25519_ChaChaPoly_BLAKE2s", prologue)
        .local_private_key(leak(is.private()))
        .fixed_ephemeral_key_for_testing_only(leak(ie.private()))
        .build_initiator()
        .unwrap();
    let mut s_resp = snow_builder("Noise_XX_25519_ChaChaPoly_BLAKE2s", prologue)
        .local_private_key(leak(rs.private()))
        .fixed_ephemeral_key_for_testing_only(leak(re.private()))
        .build_responder()
        .unwrap();
    let mut ours_i = HandshakeState::new_fixed(is, ie, prologue);
    let mut ours_r = HandshakeState::new_fixed(rs, re, prologue);
    let mut buf = vec![0u8; 65535];
    let mut tmp = vec![0u8; 65535];

    let m0 = ours_i.write_msg0(b"p0");
    let n = s_init.write_message(b"p0", &mut buf).unwrap();
    assert_eq!(m0, &buf[..n]);
    s_resp.read_message(&m0, &mut tmp).unwrap();
    ours_r.read_msg0(&m0).unwrap();

    let m1 = ours_r.write_msg1(b"p1");
    let n = s_resp.write_message(b"p1", &mut buf).unwrap();
    assert_eq!(m1, &buf[..n]);
    s_init.read_message(&m1, &mut tmp).unwrap();
    ours_i.read_msg1(&m1).unwrap();

    let (m2, i_fi, _i_fr, i_hash, _) = ours_i.write_msg2(b"p2");
    let n = s_init.write_message(b"p2", &mut buf).unwrap();
    assert_eq!(m2, &buf[..n]);
    s_resp.read_message(&m2, &mut tmp).unwrap();
    let (_r_fi, r_fr, r_hash, _) = ours_r.read_msg2(&m2).unwrap();

    assert_eq!(&i_hash[..], s_init.get_handshake_hash());
    assert_eq!(&r_hash[..], s_resp.get_handshake_hash());

    let mut t_init = s_init.into_transport_mode().unwrap();
    let mut t_resp = s_resp.into_transport_mode().unwrap();
    transport_check(i_fi, &mut t_resp, b"from initiator");
    transport_check(r_fr, &mut t_init, b"from responder");
}

#[test]
fn nk_matches_snow_byte_for_byte() {
    let (is, ie, rs, re) = (kp(5), kp(6), kp(7), kp(8));
    let r_pub = rs.public_key;
    let mut s_init = snow_builder("Noise_NK_25519_ChaChaPoly_BLAKE2s", b"")
        .remote_public_key(leak(r_pub))
        .fixed_ephemeral_key_for_testing_only(leak(ie.private()))
        .build_initiator()
        .unwrap();
    let mut s_resp = snow_builder("Noise_NK_25519_ChaChaPoly_BLAKE2s", b"")
        .local_private_key(leak(rs.private()))
        .fixed_ephemeral_key_for_testing_only(leak(re.private()))
        .build_responder()
        .unwrap();
    let mut ours_i = HandshakeState::new_nk_fixed(is, ie, &[], Some(r_pub));
    let mut ours_r = HandshakeState::new_nk_fixed(rs, re, &[], None);
    let mut buf = vec![0u8; 65535];
    let mut tmp = vec![0u8; 65535];

    let m0 = ours_i.write_nk_msg0(b"");
    let n = s_init.write_message(b"", &mut buf).unwrap();
    assert_eq!(m0, &buf[..n]);
    s_resp.read_message(&m0, &mut tmp).unwrap();
    ours_r.read_nk_msg0(&m0).unwrap();

    let (m1, _r_fi, r_fr, r_hash) = ours_r.write_nk_msg1(b"");
    let n = s_resp.write_message(b"", &mut buf).unwrap();
    assert_eq!(m1, &buf[..n]);
    s_init.read_message(&m1, &mut tmp).unwrap();
    let (i_fi, _i_fr, i_hash) = ours_i.read_nk_msg1(&m1).unwrap();

    assert_eq!(&i_hash[..], s_init.get_handshake_hash());
    assert_eq!(&r_hash[..], s_resp.get_handshake_hash());

    let mut t_init = s_init.into_transport_mode().unwrap();
    let mut t_resp = s_resp.into_transport_mode().unwrap();
    transport_check(i_fi, &mut t_resp, b"from initiator");
    transport_check(r_fr, &mut t_init, b"from responder");
}
