//! Concrete instances of the library's laws.
use trueseal_noise::cipher::CipherState;
use trueseal_noise::ffi::{NoiseError, NoiseTransport};
use trueseal_noise::framing::{encode_frame, header_len};
use trueseal_noise::session::{read_message, write_message, SessionInner};
use std::cell::RefCell;
use trueseal_noise::symmetric::SymmetricState;

/// A transport that is never used.
struct Unused;

impl NoiseTransport for Unused {
    fn read(&self, _count: u64) -> Result<Vec<u8>, NoiseError> {
        Err(NoiseError::Closed {})
    }
    fn write(&self, _data: Vec<u8>) -> Result<(), NoiseError> {
        Err(NoiseError::Closed {})
    }
}

/// Framing round trip on concrete data.
#[test]
fn frame_round_trip_on_concrete_data() {
    for data in [vec![], vec![1u8], vec![9u8; 300], vec![7u8; 65535]] {
        let f = encode_frame(&data);
        assert_eq!(f.len(), data.len() + 2);
        assert_eq!(header_len([f[0], f[1]]), data.len());
        assert_eq!(&f[2..], &data[..]);
    }
}

/// A CipherState at the same key and nonce decrypts what another encrypted.
#[test]
fn cipher_round_trip_at_later_nonce() {
    let mut a = CipherState::new([8u8; 32]);
    let mut b = CipherState::new([8u8; 32]);
    for k in 0..4u8 {
        let ct = a.encrypt(&[k], &[k; 10]);
        assert_eq!(b.decrypt(&[k], &ct).unwrap(), vec![k; 10]);
    }
}

/// Symmetric states in the same state stay in step through encryption and
/// decryption.
#[test]
fn symmetric_states_stay_in_step() {
    let mut a = SymmetricState::new("Noise_XX_25519_ChaChaPoly_BLAKE2s");
    let mut b = SymmetricState::new("Noise_XX_25519_ChaChaPoly_BLAKE2s");
    a.mix_hash(b"prologue");
    b.mix_hash(b"prologue");
    let ct = a.encrypt_and_hash(b"clear");
    assert_eq!(b.decrypt_and_hash(&ct).unwrap(), b"clear");
    a.mix_key(&[5u8; 32]);
    b.mix_key(&[5u8; 32]);
    let ct = a.encrypt_and_hash(b"secret");
    assert_eq!(b.decrypt_and_hash(&ct).unwrap(), b"secret");
    assert_eq!(a.h, b.h);
    assert_eq!(a.ck, b.ck);
}

/// The frame one session seals is opened by a peer whose incoming cipher is
/// the sender's outgoing cipher, message after message.
#[test]
fn transport_message_round_trip() {
    let mut a = SessionInner::new(Unused, CipherState::new([3u8; 32]), CipherState::new([4u8; 32]));
    let mut b = SessionInner::new(Unused, CipherState::new([4u8; 32]), CipherState::new([3u8; 32]));
    for payload in [vec![], b"hello".to_vec(), vec![0xabu8; 65519]] {
        let frame = a.seal_frame(&payload).unwrap();
        assert_eq!(frame.len(), payload.len() + 16 + 2);
        assert_eq!(header_len([frame[0], frame[1]]), frame.len() - 2);
        assert_eq!(b.open_body(&frame[2..]).unwrap(), payload);
    }
    assert_eq!(a.send_nonce(), 3);
    assert_eq!(b.receive_nonce(), 3);
    // A body opened under the wrong nonce fails and leaves the nonce alone,
    // so the message that was due still opens afterwards.
    let frame = a.seal_frame(b"x").unwrap();
    let late = a.seal_frame(b"y").unwrap();
    assert_eq!(b.open_body(&late[2..]).unwrap_err(), "noise: decrypt: Decrypt");
    assert_eq!(b.receive_nonce(), 3);
    assert_eq!(b.open_body(&frame[2..]).unwrap(), b"x".to_vec());
    assert_eq!(b.open_body(&late[2..]).unwrap(), b"y".to_vec());
}

/// Sealing refuses oversize payloads and closed sessions without touching
/// the nonce.
#[test]
fn seal_frame_refusals_leave_state_alone() {
    let mut a = SessionInner::new(Unused, CipherState::new([3u8; 32]), CipherState::new([4u8; 32]));
    assert_eq!(
        a.seal_frame(&vec![0u8; 65520]).unwrap_err(),
        "noise: payload exceeds maximum message size (65520 > 65519)"
    );
    assert_eq!(a.send_nonce(), 0);
    a.close().unwrap();
    assert_eq!(a.seal_frame(b"hi").unwrap_err(), "noise: session is closed");
    assert_eq!(a.send_nonce(), 0);
}

/// Bytes queued for reading.
struct Queue(RefCell<Vec<u8>>);

impl NoiseTransport for Queue {
    fn read(&self, count: u64) -> Result<Vec<u8>, NoiseError> {
        let mut q = self.0.borrow_mut();
        let n = (count as usize).min(q.len());
        Ok(q.drain(..n).collect())
    }
    fn write(&self, data: Vec<u8>) -> Result<(), NoiseError> {
        self.0.borrow_mut().extend_from_slice(&data);
        Ok(())
    }
}

/// A frame read from the link and opened by the peer gives the payload back,
/// in order; after close the peer refuses to open anything.
#[test]
fn read_message_then_open_message() {
    let mut a = SessionInner::new(Unused, CipherState::new([6u8; 32]), CipherState::new([7u8; 32]));
    let mut b = SessionInner::new(Unused, CipherState::new([7u8; 32]), CipherState::new([6u8; 32]));
    let link = Queue(RefCell::new(Vec::new()));
    for p in [b"one".to_vec(), b"two".to_vec()] {
        let f = a.seal_frame(&p).unwrap();
        link.0.borrow_mut().extend_from_slice(&f);
    }
    let body = read_message(&link).unwrap();
    assert_eq!(b.open_message(&body).unwrap(), b"one".to_vec());
    let body = read_message(&link).unwrap();
    assert_eq!(b.open_message(&body).unwrap(), b"two".to_vec());
    assert_eq!(read_message(&link).unwrap_err(), "noise: receive header: connection closed");
    b.close().unwrap();
    assert_eq!(b.open_message(&body).unwrap_err(), "noise: session is closed");
    assert_eq!(b.receive_nonce(), 2);
}

/// What one session seals and writes on a loopback link, its peer reads and
/// opens, message after message.
#[test]
fn sealed_frames_written_then_read_round_trip() {
    let mut a = SessionInner::new(Unused, CipherState::new([8u8; 32]), CipherState::new([9u8; 32]));
    let mut b = SessionInner::new(Unused, CipherState::new([9u8; 32]), CipherState::new([8u8; 32]));
    let link = Queue(RefCell::new(Vec::new()));
    for p in [b"first".to_vec(), vec![], vec![7u8; 1000]] {
        let f = a.seal_frame(&p).unwrap();
        assert_eq!(f.len(), p.len() + 18);
        write_message(&link, f).unwrap();
        let body = read_message(&link).unwrap();
        assert_eq!(b.open_message(&body).unwrap(), p);
    }
}
