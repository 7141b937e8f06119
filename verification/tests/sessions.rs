//! Session drivers against a scripted peer: the peer runs the other side of
//! the handshake with `HandshakeState` as frames arrive, so no threads are
//! needed.
use std::cell::RefCell;
use std::collections::VecDeque;
use std::rc::Rc;

use trueseal_noise::cipher::CipherState;
use trueseal_noise::ffi::{NoiseError, NoiseTransport};
use trueseal_noise::handshake::HandshakeState;
use trueseal_noise::keypair::{generate_keypair, Keypair};
use trueseal_noise::{session_nk, session_xx};

#[derive(PartialEq)]
enum Role {
    XxInitiator,
    XxResponder,
    NkInitiator,
    NkResponder,
}

struct Peer {
    role: Role,
    hs: Option<HandshakeState>,
    stage: u8,
    done: bool,
    inbox: Vec<u8>,
    outbox: VecDeque<u8>,
    send: Option<CipherState>,
    recv: Option<CipherState>,
    remote: Option<[u8; 32]>,
    received: Vec<Vec<u8>>,
}

fn frame(data: &[u8]) -> Vec<u8> {
    let mut f = (data.len() as u16).to_be_bytes().to_vec();
    f.extend_from_slice(data);
    f
}

impl Peer {
    fn new(role: Role, hs: HandshakeState) -> Peer {
        let mut p = Peer {
            role,
            hs: Some(hs),
            stage: 0,
            done: false,
            inbox: Vec::new(),
            outbox: VecDeque::new(),
            send: None,
            recv: None,
            remote: None,
            received: Vec::new(),
        };
        match p.role {
            Role::XxInitiator => {
                let m0 = p.hs.as_mut().unwrap().write_msg0(&[]);
                p.outbox.extend(frame(&m0));
            }
            Role::NkInitiator => {
                let m0 = p.hs.as_mut().unwrap().write_nk_msg0(&[]);
                p.outbox.extend(frame(&m0));
            }
            _ => {}
        }
        p
    }

    fn process(&mut self) {
        loop {
            if self.inbox.len() < 2 {
                return;
            }
            let len = u16::from_be_bytes([self.inbox[0], self.inbox[1]]) as usize;
            if self.inbox.len() < 2 + len {
                return;
            }
            let body: Vec<u8> = self.inbox[2..2 + len].to_vec();
            self.inbox.drain(..2 + len);
            self.handle(&body);
        }
    }

    fn handle(&mut self, body: &[u8]) {
        if self.done {
            let pt = self.recv.as_mut().unwrap().decrypt(&[], body).expect("peer decrypts");
            self.received.push(pt);
            return;
        }
        match self.role {
            Role::XxResponder if self.stage == 0 => {
                let hs = self.hs.as_mut().unwrap();
                hs.read_msg0(body).expect("peer reads msg0");
                let m1 = hs.write_msg1(&[]);
                self.outbox.extend(frame(&m1));
                self.stage = 1;
            }
            Role::XxResponder => {
                let hs = self.hs.take().unwrap();
                let (fi, fr, _h, rs) = hs.read_msg2(body).expect("peer reads msg2");
                self.send = Some(fr);
                self.recv = Some(fi);
                self.remote = Some(rs);
                self.done = true;
            }
            Role::XxInitiator => {
                let mut hs = self.hs.take().unwrap();
                hs.read_msg1(body).expect("peer reads msg1");
                let (m2, fi, fr, _h, rs) = hs.write_msg2(&[]);
                self.outbox.extend(frame(&m2));
                self.send = Some(fi);
                self.recv = Some(fr);
                self.remote = Some(rs);
                self.done = true;
            }
            Role::NkResponder => {
                let mut hs = self.hs.take().unwrap();
                hs.read_nk_msg0(body).expect("peer reads msg0");
                let (m1, fi, fr, _h) = hs.write_nk_msg1(&[]);
                self.outbox.extend(frame(&m1));
                self.send = Some(fr);
                self.recv = Some(fi);
                self.done = true;
            }
            Role::NkInitiator => {
                let hs = self.hs.take().unwrap();
                let (fi, fr, _h) = hs.read_nk_msg1(body).expect("peer reads msg1");
                self.send = Some(fi);
                self.recv = Some(fr);
                self.done = true;
            }
        }
    }

    /// Sends an application message to the session under test.
    fn send_app(&mut self, payload: &[u8]) {
        let ct = self.send.as_mut().unwrap().encrypt(&[], payload);
        self.outbox.extend(frame(&ct));
    }
}

#[derive(Clone)]
struct PeerTransport(Rc<RefCell<Peer>>);

impl NoiseTransport for PeerTransport {
    fn read(&self, count: u64) -> Result<Vec<u8>, NoiseError> {
        let mut p = self.0.borrow_mut();
        let n = (count as usize).min(p.outbox.len());
        Ok(p.outbox.drain(..n).collect())
    }

    fn write(&self, data: Vec<u8>) -> Result<(), NoiseError> {
        let mut p = self.0.borrow_mut();
        p.inbox.extend_from_slice(&data);
        p.process();
        Ok(())
    }
}

fn peer(role: Role, hs: HandshakeState) -> PeerTransport {
    PeerTransport(Rc::new(RefCell::new(Peer::new(role, hs))))
}

fn copy(kp: &Keypair) -> Keypair {
    Keypair::new(kp.private(), kp.public_key)
}

fn xx_initiator_session() -> (session_xx::Session<PeerTransport>, PeerTransport, Keypair, Keypair) {
    let i_kp = generate_keypair();
    let r_kp = generate_keypair();
    let conn = peer(Role::XxResponder, HandshakeState::new(copy(&r_kp)));
    let s = session_xx::dial(conn.clone(), copy(&i_kp)).expect("dial failed");
    (s, conn, i_kp, r_kp)
}

fn xx_responder_session() -> (session_xx::Session<PeerTransport>, PeerTransport, Keypair, Keypair) {
    let i_kp = generate_keypair();
    let r_kp = generate_keypair();
    let conn = peer(Role::XxInitiator, HandshakeState::new(copy(&i_kp)));
    let s = session_xx::accept(conn.clone(), copy(&r_kp)).expect("accept failed");
    (s, conn, i_kp, r_kp)
}

fn nk_initiator_session() -> (session_nk::Session<PeerTransport>, PeerTransport) {
    let r_kp = generate_keypair();
    let r_pub = r_kp.public_key;
    let conn = peer(Role::NkResponder, HandshakeState::new_nk(r_kp, None));
    let s = session_nk::dial(conn.clone(), generate_keypair(), r_pub).expect("dial failed");
    (s, conn)
}

fn nk_responder_session() -> (session_nk::Session<PeerTransport>, PeerTransport) {
    let r_kp = generate_keypair();
    let r_pub = r_kp.public_key;
    let conn = peer(Role::NkInitiator, HandshakeState::new_nk(generate_keypair(), Some(r_pub)));
    let s = session_nk::accept(conn.clone(), r_kp).expect("accept failed");
    (s, conn)
}

#[test]
fn session_xx_dial_accept_complete() {
    let (mut i_session, i_peer, _, _) = xx_initiator_session();
    i_session.send(b"hello").expect("send failed");
    assert_eq!(i_peer.0.borrow().received, vec![b"hello".to_vec()]);

    let (mut r_session, r_peer, _, _) = xx_responder_session();
    r_peer.0.borrow_mut().send_app(b"hello");
    let msg = r_session.receive().expect("receive failed");
    assert_eq!(msg, b"hello");
}

#[test]
fn session_xx_responder_sends_to_initiator() {
    let (mut r_session, r_peer, _, _) = xx_responder_session();
    r_session.send(b"pong").expect("send failed");
    assert_eq!(r_peer.0.borrow().received, vec![b"pong".to_vec()]);

    let (mut i_session, i_peer, _, _) = xx_initiator_session();
    i_peer.0.borrow_mut().send_app(b"pong");
    assert_eq!(i_session.receive().expect("receive failed"), b"pong");
}

#[test]
fn remote_public_key_is_correct() {
    let (i_session, i_peer, i_kp, r_kp) = xx_initiator_session();
    assert_eq!(i_session.remote_public_key(), r_kp.public_key);
    assert_eq!(i_peer.0.borrow().remote, Some(i_kp.public_key));

    let (r_session, _r_peer, i_kp, _r_kp) = xx_responder_session();
    assert_eq!(r_session.remote_public_key(), i_kp.public_key);
}

#[test]
fn session_xx_send_oversize_payload_fails() {
    let (mut i_session, _peer, _, _) = xx_initiator_session();
    assert!(i_session.send(&vec![0u8; 65536]).is_err());
    assert_eq!(
        i_session.send(&vec![0u8; 65520]).unwrap_err(),
        "noise: payload exceeds maximum message size (65520 > 65519)"
    );
    assert_eq!(i_session.send_nonce(), 0);
    assert!(i_session.send(&vec![0u8; 65519]).is_ok());
    assert_eq!(i_session.send_nonce(), 1);
}

#[test]
fn session_xx_close_rejects_subsequent_send() {
    let (mut i_session, _peer, _, _) = xx_initiator_session();
    i_session.close().expect("close failed");
    assert!(i_session.send(b"after close").is_err());
    assert_eq!(i_session.receive().unwrap_err(), "noise: session is closed");
}

#[test]
fn xx_messages_in_order_in_both_directions() {
    let (mut i_session, i_peer, _, _) = xx_initiator_session();
    for k in 0..5u8 {
        i_session.send(&[k; 3]).unwrap();
        i_peer.0.borrow_mut().send_app(&[k + 100; 2]);
        assert_eq!(i_session.receive().unwrap(), vec![k + 100; 2]);
    }
    let got = i_peer.0.borrow().received.clone();
    assert_eq!(got, (0..5u8).map(|k| vec![k; 3]).collect::<Vec<_>>());
    assert_eq!(i_session.send_nonce(), 5);
    assert_eq!(i_session.receive_nonce(), 5);
}

#[test]
fn receive_on_ended_connection_reports_closed_connection() {
    let (mut i_session, _peer, _, _) = xx_initiator_session();
    assert_eq!(i_session.receive().unwrap_err(), "noise: receive header: connection closed");
}

#[test]
fn tampered_message_fails_to_decrypt() {
    let (mut i_session, i_peer, _, _) = xx_initiator_session();
    i_peer.0.borrow_mut().send_app(b"data");
    {
        let mut p = i_peer.0.borrow_mut();
        let last = p.outbox.len() - 1;
        p.outbox[last] ^= 1;
    }
    assert_eq!(
        i_session.receive().unwrap_err(),
        "noise: decrypt: Decrypt"
    );
    assert_eq!(i_session.receive_nonce(), 0);
}

#[test]
fn dial_against_silent_peer_fails() {
    struct Silent;
    impl NoiseTransport for Silent {
        fn read(&self, _count: u64) -> Result<Vec<u8>, NoiseError> {
            Ok(Vec::new())
        }
        fn write(&self, _data: Vec<u8>) -> Result<(), NoiseError> {
            Ok(())
        }
    }
    let err = session_xx::dial(Silent, generate_keypair()).err().unwrap();
    assert_eq!(err, "noise: read msg1: failed to fill whole buffer");
    let err = session_xx::accept(Silent, generate_keypair()).err().unwrap();
    assert_eq!(err, "noise: read msg0: failed to fill whole buffer");
}

#[test]
fn dial_with_failing_writes_reports_transport_error() {
    struct Broken;
    impl NoiseTransport for Broken {
        fn read(&self, _count: u64) -> Result<Vec<u8>, NoiseError> {
            Err(NoiseError::Transport { message: "down".to_string() })
        }
        fn write(&self, _data: Vec<u8>) -> Result<(), NoiseError> {
            Err(NoiseError::Transport { message: "down".to_string() })
        }
    }
    let err = session_xx::dial(Broken, generate_keypair()).err().unwrap();
    assert_eq!(err, "noise: write_msg0: noise: transport error: down");
    let err = session_nk::dial(Broken, generate_keypair(), [1u8; 32]).err().unwrap();
    assert_eq!(err, "noise: frame msg0: noise: transport error: down");
}

#[test]
fn session_nk_dial_accept_complete() {
    let (mut i_session, i_peer) = nk_initiator_session();
    i_session.send(b"hello nk").expect("send failed");
    assert_eq!(i_peer.0.borrow().received, vec![b"hello nk".to_vec()]);

    let (mut r_session, r_peer) = nk_responder_session();
    r_peer.0.borrow_mut().send_app(b"hello nk");
    assert_eq!(r_session.receive().expect("receive failed"), b"hello nk");
}

#[test]
fn session_nk_responder_sends_to_initiator() {
    let (mut r_session, r_peer) = nk_responder_session();
    r_session.send(b"pong nk").expect("send failed");
    assert_eq!(r_peer.0.borrow().received, vec![b"pong nk".to_vec()]);

    let (mut i_session, i_peer) = nk_initiator_session();
    i_peer.0.borrow_mut().send_app(b"pong nk");
    assert_eq!(i_session.receive().expect("receive failed"), b"pong nk");
}

#[test]
fn session_nk_send_oversize_payload_fails() {
    let (mut i_session, _peer) = nk_initiator_session();
    assert!(i_session.send(&vec![0u8; 65536]).is_err());
}

#[test]
fn session_nk_close_rejects_subsequent_send() {
    let (mut i_session, _peer) = nk_initiator_session();
    i_session.close().expect("close failed");
    assert!(i_session.send(b"after close").is_err());
}

#[test]
fn nk_first_message_for_another_key_is_refused() {
    let mut hs_r = HandshakeState::new_nk(generate_keypair(), None);
    let mut hs_i = HandshakeState::new_nk(generate_keypair(), Some(generate_keypair().public_key));
    let m0 = hs_i.write_nk_msg0(&[]);
    assert_eq!(hs_r.read_nk_msg0(&m0).unwrap_err(), "noise: read msg0: Decrypt");
}
