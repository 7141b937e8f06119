use std::cell::RefCell;
use std::rc::Rc;

use trueseal_noise::ffi::{dial_nk, dial_xx, generate_keypair, new_keypair, NoiseError, NoiseTransport};

fn kind(e: &NoiseError) -> &'static str {
    match e {
        NoiseError::Transport { .. } => "transport",
        NoiseError::Handshake { .. } => "handshake",
        NoiseError::Closed {} => "closed",
        NoiseError::PayloadTooLarge {} => "payload",
    }
}

#[test]
fn error_kinds_follow_message_text() {
    assert_eq!(kind(&NoiseError::from("noise: session is closed".to_string())), "closed");
    assert_eq!(
        kind(&NoiseError::from("noise: payload exceeds maximum message size (70000 > 65519)".to_string())),
        "payload"
    );
    assert_eq!(kind(&NoiseError::from("noise: decrypt: bad".to_string())), "handshake");
    assert_eq!(kind(&NoiseError::from("noise: handshake failed".to_string())), "handshake");
    assert_eq!(kind(&NoiseError::from("could not authenticate".to_string())), "handshake");
    assert_eq!(kind(&NoiseError::from("noise: msg1 too short".to_string())), "transport");
    // "closed" wins over every other marker.
    assert_eq!(kind(&NoiseError::from("decrypt closed payload exceeds".to_string())), "closed");
    match NoiseError::from("noise: read msg0: Input".to_string()) {
        NoiseError::Transport { message } => assert_eq!(message, "noise: read msg0: Input"),
        other => panic!("unexpected {:?}", other),
    }
    match NoiseError::from("noise: read msg0: Decrypt".to_string()) {
        NoiseError::Transport { .. } => {}
        other => panic!("case-sensitive match expected, got {:?}", other),
    }
}

#[test]
fn error_text_matches_display() {
    assert_eq!(NoiseError::Transport { message: "x".to_string() }.to_string(), "noise: transport error: x");
    assert_eq!(NoiseError::Handshake { message: "y".to_string() }.to_string(), "noise: handshake failed: y");
    assert_eq!(NoiseError::Closed {}.to_string(), "noise: session is closed");
    assert_eq!(NoiseError::PayloadTooLarge {}.to_string(), "noise: payload too large");
}

#[test]
fn generate_keypair_record_is_consistent() {
    let rec = generate_keypair();
    assert_eq!(rec.private_key.len(), 32);
    assert_eq!(rec.public_key.len(), 32);
    assert_eq!(rec.private_key[0] & 7, 0);
    let mut priv_arr = [0u8; 32];
    priv_arr.copy_from_slice(&rec.private_key);
    let derived = x25519_dalek::PublicKey::from(&x25519_dalek::StaticSecret::from(priv_arr));
    assert_eq!(derived.as_bytes().to_vec(), rec.public_key);
    let kp = rec.to_keypair();
    assert_eq!(kp.private().to_vec(), rec.private_key);
    assert_eq!(kp.public_key.to_vec(), rec.public_key);
}

#[test]
fn new_keypair_copies_bytes() {
    let rec = new_keypair(&[7u8; 32], &[9u8; 32]);
    assert_eq!(rec.private_key, vec![7u8; 32]);
    assert_eq!(rec.public_key, vec![9u8; 32]);
}

#[derive(Clone)]
struct Recorder {
    written: Rc<RefCell<Vec<Vec<u8>>>>,
}

impl NoiseTransport for Recorder {
    fn read(&self, _count: u64) -> Result<Vec<u8>, NoiseError> {
        Ok(Vec::new())
    }
    fn write(&self, data: Vec<u8>) -> Result<(), NoiseError> {
        self.written.borrow_mut().push(data);
        Ok(())
    }
}

#[test]
fn dial_nk_refuses_short_remote_static_before_io() {
    let t = Recorder { written: Rc::new(RefCell::new(Vec::new())) };
    match dial_nk(t.clone(), generate_keypair(), vec![1u8; 31]) {
        Err(NoiseError::Transport { message }) => {
            assert_eq!(message, "noise: remote_static must be 32 bytes, got 31")
        }
        _ => panic!("expected a transport error"),
    }
    assert!(t.written.borrow().is_empty());
}

#[test]
fn dial_xx_over_silent_transport_is_a_transport_error() {
    let t = Recorder { written: Rc::new(RefCell::new(Vec::new())) };
    match dial_xx(t.clone(), generate_keypair()) {
        Err(NoiseError::Transport { message }) => {
            assert_eq!(message, "noise: read msg1: failed to fill whole buffer")
        }
        _ => panic!("expected a transport error"),
    }
    // msg0 was framed: a 2-byte header announcing 32 bytes, then the ephemeral key.
    let written = t.written.borrow();
    assert_eq!(written.len(), 2);
    assert_eq!(written[0], vec![0u8, 32]);
    assert_eq!(written[1].len(), 32);
}

#[test]
fn dial_nk_over_closed_transport_is_classified_closed() {
    struct ClosedPipe;
    impl NoiseTransport for ClosedPipe {
        fn read(&self, _count: u64) -> Result<Vec<u8>, NoiseError> {
            Err(NoiseError::Closed {})
        }
        fn write(&self, _data: Vec<u8>) -> Result<(), NoiseError> {
            Err(NoiseError::Closed {})
        }
    }
    match dial_nk(ClosedPipe, generate_keypair(), vec![1u8; 32]) {
        Err(NoiseError::Closed {}) => {}
        _ => panic!("expected a closed error"),
    }
}

#[test]
fn dial_nk_refuses_long_remote_static_even_with_empty_keypair() {
    let t = Recorder { written: Rc::new(RefCell::new(Vec::new())) };
    match dial_nk(t.clone(), new_keypair(&[], &[]), vec![1u8; 33]) {
        Err(NoiseError::Transport { message }) => {
            assert_eq!(message, "noise: remote_static must be 32 bytes, got 33")
        }
        _ => panic!("expected a transport error"),
    }
    assert!(t.written.borrow().is_empty());
}
