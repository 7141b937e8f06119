//! NK sessions: the initiator knows the responder's static key in advance
//! and stays anonymous.
use vstd::prelude::*;
use crate::cipher::CipherModel;
use crate::ffi::NoiseTransport;
use crate::framing::{after_read_failure, after_transport_error, frame_bytes, read_frame_recorded, write_frame_recorded};
use crate::handshake::{
    nk_initial, nk_msg0_decrypt_text, nk_msg0_input_text, nk_msg1_decrypt_text, nk_msg1_input_text,
    HandshakeState, HsOutcome,
};
use crate::keypair::{is_clamped, spec_x25519_public, Keypair};
use crate::session::SessionInner;

verus! {

/// What the initiator of an NK handshake ends with, from its keypair, its
/// ephemeral private key, the responder's static key and the second message
/// it received; its first message carries an empty payload. `None` when
/// the second message is refused.
pub open spec fn nk_dial_outcome(
    s_priv: Seq<u8>,
    s_pub: Seq<u8>,
    e_priv: Seq<u8>,
    remote_static: Seq<u8>,
    m1: Seq<u8>,
) -> Option<HsOutcome> {
    let init = nk_initial((s_priv, s_pub), (e_priv, spec_x25519_public(e_priv)), Seq::empty(), Some(remote_static));
    let (i1, _m0) = init.nk_write_msg0(Seq::empty());
    match i1.nk_read_msg1(m1) {
        Ok((o, _)) => Some(o),
        Err(_) => None,
    }
}

/// What the responder of an NK handshake ends with, from its static
/// keypair, its ephemeral private key and the first message it received;
/// its second message carries an empty payload. `None` when the first
/// message is refused.
pub open spec fn nk_accept_outcome(s_priv: Seq<u8>, s_pub: Seq<u8>, e_priv: Seq<u8>, m0: Seq<u8>) -> Option<HsOutcome> {
    let init = nk_initial((s_priv, s_pub), (e_priv, spec_x25519_public(e_priv)), Seq::empty(), None);
    let (r1, got0) = init.nk_read_msg0(m0);
    if got0 is Ok {
        Some(r1.nk_write_msg1(Seq::empty()).1)
    } else {
        None
    }
}

/// A fully negotiated, bidirectional encrypted channel produced by the NK
/// Handshake Pattern. Sessions are not resumable after close.
///
/// The NK pattern is anonymous for the Initiator — the Responder never
/// learns the Initiator's static key. `remote_public_key()` is therefore
/// absent from this type entirely.
pub struct Session<T: NoiseTransport> {
    inner: SessionInner<T>,
}

impl<T: NoiseTransport> Session<T> {
    /// The cipher for outgoing messages.
    pub open spec fn send_state(&self) -> CipherModel {
        self.inner_spec().send_state()
    }

    /// The cipher for incoming messages.
    pub open spec fn recv_state(&self) -> CipherModel {
        self.inner_spec().recv_state()
    }

    /// The session has been closed.
    pub open spec fn is_closed(&self) -> bool {
        self.inner_spec().is_closed()
    }

    /// The underlying shared session state.
    pub closed spec fn inner_spec(&self) -> SessionInner<T> {
        self.inner
    }

    /// Every byte this session has handed to its transport's writes.
    pub open spec fn sent(&self) -> Seq<u8> {
        self.inner_spec().sent()
    }

    /// Every byte this session has taken from its transport's reads.
    pub open spec fn received(&self) -> Seq<u8> {
        self.inner_spec().received()
    }

    fn new(
        conn: T,
        send_cs: crate::cipher::CipherState,
        recv_cs: crate::cipher::CipherState,
        sent: Ghost<Seq<u8>>,
        received: Ghost<Seq<u8>>,
    ) -> (s: Self)
        ensures
            s.send_state() == send_cs@,
            s.recv_state() == recv_cs@,
            !s.is_closed(),
            s.sent() == sent@,
            s.received() == received@,
    {
        Self { inner: SessionInner::after_handshake(conn, send_cs, recv_cs, sent, received) }
    }

    /// Encrypts payload and writes it to the transport with a 2-byte
    /// big-endian length prefix. Behaves as `SessionInner::send`.
    pub fn send(&mut self, payload: &[u8]) -> (res: Result<(), String>)
        requires
            payload@.len() <= crate::framing::MAX_PLAINTEXT_SIZE && !old(self).is_closed() ==> old(self).send_state().can_advance(),
        ensures
            crate::session::send_contract(old(self).inner_spec(), final(self).inner_spec(), payload@, res),
    {
        self.inner.send(payload)
    }

    /// Reads one framed message from the transport and decrypts it.
    /// Behaves as `SessionInner::receive`.
    pub fn receive(&mut self) -> (res: Result<Vec<u8>, String>)
        requires
            !old(self).is_closed() ==> old(self).recv_state().can_advance(),
        ensures
            crate::session::receive_contract(old(self).inner_spec(), final(self).inner_spec(), res),
    {
        self.inner.receive()
    }

    /// Closes the session. Subsequent send/receive return errors.
    /// Sessions are not resumable after close.
    pub fn close(&mut self) -> (res: Result<(), String>)
        ensures
            res is Ok,
            final(self).is_closed(),
            final(self).send_state() == old(self).send_state(),
            final(self).recv_state() == old(self).recv_state(),
    {
        self.inner.close()
    }

    /// The frame that `send` writes for payload. Behaves as
    /// `SessionInner::seal_frame`.
    pub fn seal_frame(&mut self, payload: &[u8]) -> (res: Result<Vec<u8>, String>)
        requires
            payload@.len() <= crate::framing::MAX_PLAINTEXT_SIZE && !old(self).is_closed() ==> old(self).send_state().can_advance(),
        ensures
            crate::session::seal_contract(old(self).inner_spec(), final(self).inner_spec(), payload@, res),
    {
        self.inner.seal_frame(payload)
    }

    /// Decrypts the body of a frame received for this session. Behaves as
    /// `SessionInner::open_message`.
    pub fn open_message(&mut self, ciphertext: &[u8]) -> (res: Result<Vec<u8>, String>)
        requires
            !old(self).is_closed() ==> old(self).recv_state().can_advance(),
        ensures
            old(self).is_closed() ==> (res matches Err(e) && e@ == crate::session::session_closed_text()
                && final(self).inner_spec() == old(self).inner_spec()),
            !old(self).is_closed() ==> crate::session::open_contract(old(self).inner_spec(), final(self).inner_spec(), ciphertext@, res),
    {
        self.inner.open_message(ciphertext)
    }

    /// Whether the session has been closed.
    pub fn closed(&self) -> (b: bool)
        ensures
            b == self.is_closed(),
    {
        self.inner.closed()
    }

    /// The nonce counter of the outgoing cipher.
    pub fn send_nonce(&self) -> (n: u64)
        ensures
            n == self.send_state().n,
    {
        self.inner.send_nonce()
    }

    /// The nonce counter of the incoming cipher.
    pub fn receive_nonce(&self) -> (n: u64)
        ensures
            n == self.recv_state().n,
    {
        self.inner.receive_nonce()
    }
}

// ── dial / accept ─────────────────────────────────────────────────────────────

/// What an NK initiator writes on its transport: the frame of its first
/// message.
pub open spec fn nk_dial_written(s_priv: Seq<u8>, s_pub: Seq<u8>, e_priv: Seq<u8>, remote_static: Seq<u8>) -> Seq<u8> {
    let init = nk_initial((s_priv, s_pub), (e_priv, spec_x25519_public(e_priv)), Seq::empty(), Some(remote_static));
    frame_bytes(init.nk_write_msg0(Seq::empty()).1)
}

/// What an NK responder writes on its transport, given the first message it
/// received: the frame of its second message.
pub open spec fn nk_accept_written(s_priv: Seq<u8>, s_pub: Seq<u8>, e_priv: Seq<u8>, m0: Seq<u8>) -> Seq<u8> {
    let init = nk_initial((s_priv, s_pub), (e_priv, spec_x25519_public(e_priv)), Seq::empty(), None);
    frame_bytes(init.nk_read_msg0(m0).0.nk_write_msg1(Seq::empty()).0)
}

/// The initiator's session ends as the NK initiator with this keypair, a
/// clamped ephemeral key, the responder's static key and the second message
/// it received.
pub open spec fn dialed<T: NoiseTransport>(s: Session<T>, keypair: Keypair, remote_static: Seq<u8>) -> bool {
    exists|e_priv: Seq<u8>, m1: Seq<u8>| {
        &&& is_clamped(e_priv)
        &&& #[trigger] nk_dial_outcome(keypair.private_spec(), keypair.public_spec(), e_priv, remote_static, m1) matches Some(o)
        &&& s.send_state() == o.from_initiator
        &&& s.recv_state() == o.from_responder
        &&& !s.is_closed()
        &&& m1.len() <= 65535
        &&& s.received() == frame_bytes(m1)
        &&& s.sent() == nk_dial_written(keypair.private_spec(), keypair.public_spec(), e_priv, remote_static)
    }
}

/// The responder's session ends as the NK responder with this keypair, a
/// clamped ephemeral key and the first message it received.
pub open spec fn accepted<T: NoiseTransport>(s: Session<T>, keypair: Keypair) -> bool {
    exists|e_priv: Seq<u8>, m0: Seq<u8>| {
        &&& is_clamped(e_priv)
        &&& #[trigger] nk_accept_outcome(keypair.private_spec(), keypair.public_spec(), e_priv, m0) matches Some(o)
        &&& s.send_state() == o.from_responder
        &&& s.recv_state() == o.from_initiator
        &&& !s.is_closed()
        &&& m0.len() <= 65535
        &&& s.received() == frame_bytes(m0)
        &&& s.sent() == nk_accept_written(keypair.private_spec(), keypair.public_spec(), e_priv, m0)
    }
}

/// The errors an NK initiator reports: its first message could not be
/// written, or the second could not be read or was refused.
pub open spec fn nk_dial_error(t: Seq<char>) -> bool {
    ||| after_transport_error("noise: frame msg0: "@, t)
    ||| after_read_failure("noise: read msg1: "@, t)
    ||| t == nk_msg1_input_text()
    ||| t == nk_msg1_decrypt_text()
}

/// The errors an NK responder reports: the first message could not be read
/// or was refused, or its second message could not be written.
pub open spec fn nk_accept_error(t: Seq<char>) -> bool {
    ||| after_read_failure("noise: read msg0: "@, t)
    ||| t == nk_msg0_input_text()
    ||| t == nk_msg0_decrypt_text()
    ||| after_transport_error("noise: frame msg1: "@, t)
}

/// Performs the NK handshake as the Initiator over conn.
/// `remote_static` is the Responder's known static public key — the Initiator
/// must have it before calling dial. Returns a Session on success.
pub fn dial<T: NoiseTransport>(conn: T, keypair: Keypair, remote_static: [u8; 32]) -> (res: Result<Session<T>, String>)
    ensures
        res matches Ok(s) ==> dialed(s, keypair, remote_static@),
        res matches Err(e) ==> nk_dial_error(e@),
{
    do_handshake(conn, keypair, Some(remote_static))
}

/// Performs the NK handshake as the Responder over conn using the provided
/// Keypair. Returns a Session on success.
pub fn accept<T: NoiseTransport>(conn: T, keypair: Keypair) -> (res: Result<Session<T>, String>)
    ensures
        res matches Ok(s) ==> accepted(s, keypair),
        res matches Err(e) ==> nk_accept_error(e@),
{
    do_handshake(conn, keypair, None)
}

/// Runs the NK handshake over conn: as the Initiator when the responder's
/// static key is given, else as the Responder.
fn do_handshake<T: NoiseTransport>(conn: T, keypair: Keypair, remote_static: Option<[u8; 32]>) -> (res: Result<Session<T>, String>)
    ensures
        res matches Ok(s) ==> match remote_static {
            Some(rs) => dialed(s, keypair, rs@),
            None => accepted(s, keypair),
        },
        res matches Err(e) ==> (if remote_static is Some { nk_dial_error(e@) } else { nk_accept_error(e@) }),
{
    let ghost s_priv = keypair.private_spec();
    let ghost s_pub = keypair.public_spec();
    let ghost kp = keypair;
    let mut hs = HandshakeState::new_nk(keypair, remote_static);
    let ghost e_priv = hs@.e_priv;
    let empty: Vec<u8> = Vec::new();

    match remote_static {
        Some(rs) => {
            // Initiator: -> e, es
            let msg0 = hs.write_nk_msg0(empty.as_slice());
            let (w0, Ghost(sent0)) = write_frame_recorded(&conn, msg0.as_slice());
            match w0 {
                Ok(()) => {},
                Err(e) => {
                    let t = String::from_str("noise: frame msg0: ").concat(e.as_str());
                    assert(t@ == "noise: frame msg0: "@ + e@);
                    return Err(t);
                },
            }
            // <- e, ee
            let (r1, Ghost(got1)) = read_frame_recorded(&conn, "failed to fill whole buffer");
            let msg1 = match r1 {
                Ok(m) => m,
                Err(e) => {
                    let t = String::from_str("noise: read msg1: ").concat(e.as_str());
                    assert(t@ == "noise: read msg1: "@ + e@);
                    return Err(t);
                },
            };
            let (fi, fr, _hash) = hs.read_nk_msg1(msg1.as_slice())?;
            let s = Session::new(conn, fi, fr, Ghost(sent0), Ghost(got1));
            assert(nk_dial_outcome(s_priv, s_pub, e_priv, rs@, msg1@) matches Some(o) && s.send_state() == o.from_initiator);
            assert(dialed(s, kp, rs@));
            Ok(s)
        },
        None => {
            // Responder: <- e, es
            let (r0, Ghost(got0)) = read_frame_recorded(&conn, "failed to fill whole buffer");
            let msg0 = match r0 {
                Ok(m) => m,
                Err(e) => {
                    let t = String::from_str("noise: read msg0: ").concat(e.as_str());
                    assert(t@ == "noise: read msg0: "@ + e@);
                    return Err(t);
                },
            };
            hs.read_nk_msg0(msg0.as_slice())?;
            // -> e, ee
            let (msg1, fi, fr, _hash) = hs.write_nk_msg1(empty.as_slice());
            let (w1, Ghost(sent1)) = write_frame_recorded(&conn, msg1.as_slice());
            match w1 {
                Ok(()) => {},
                Err(e) => {
                    let t = String::from_str("noise: frame msg1: ").concat(e.as_str());
                    assert(t@ == "noise: frame msg1: "@ + e@);
                    return Err(t);
                },
            }
            let s = Session::new(conn, fr, fi, Ghost(sent1), Ghost(got0));
            assert(nk_accept_outcome(s_priv, s_pub, e_priv, msg0@) matches Some(o) && s.send_state() == o.from_responder);
            assert(accepted(s, kp));
            Ok(s)
        },
    }
}

} // verus!

verus! {

/// Honest NK sessions agree: when the initiator dials with the responder's
/// static public key and each side's message reaches the other unchanged,
/// both sides complete, the initiator's outgoing cipher is the responder's
/// incoming one and the other way round, and both hold the same handshake
/// hash — given that X25519 agrees for the two key pairs the pattern
/// combines and that ChaCha20-Poly1305 decrypts what it encrypts.
pub proof fn lemma_nk_sessions_agree(
    i_priv: Seq<u8>,
    i_pub: Seq<u8>,
    ie_priv: Seq<u8>,
    r_priv: Seq<u8>,
    r_pub: Seq<u8>,
    re_priv: Seq<u8>,
)
    requires
        spec_x25519_public(ie_priv).len() == 32,
        spec_x25519_public(re_priv).len() == 32,
        crate::handshake::aead_is_correct(),
        crate::handshake::dh_agrees(ie_priv, spec_x25519_public(ie_priv), re_priv, spec_x25519_public(re_priv)),
        crate::handshake::dh_agrees(ie_priv, spec_x25519_public(ie_priv), r_priv, r_pub),
    ensures
        ({
            let i0 = nk_initial((i_priv, i_pub), (ie_priv, spec_x25519_public(ie_priv)), Seq::empty(), Some(r_pub));
            let r0 = nk_initial((r_priv, r_pub), (re_priv, spec_x25519_public(re_priv)), Seq::empty(), None);
            let (_, m0) = i0.nk_write_msg0(Seq::empty());
            let (m1, _) = r0.nk_read_msg0(m0).0.nk_write_msg1(Seq::empty());
            &&& nk_dial_outcome(i_priv, i_pub, ie_priv, r_pub, m1) matches Some(oi)
            &&& nk_accept_outcome(r_priv, r_pub, re_priv, m0) matches Some(or)
            &&& oi.from_initiator == or.from_initiator
            &&& oi.from_responder == or.from_responder
            &&& oi.hash == or.hash
        }),
{
    let i0 = nk_initial((i_priv, i_pub), (ie_priv, spec_x25519_public(ie_priv)), Seq::empty(), Some(r_pub));
    let r0 = nk_initial((r_priv, r_pub), (re_priv, spec_x25519_public(re_priv)), Seq::empty(), None);
    crate::handshake::lemma_nk_handshake_agreement(i0, r0, Seq::empty(), Seq::empty());
}

} // verus!

verus! {

/// An NK dial reads the responder's message whole: when the bytes a
/// successful dial took from its transport are a beginning of a stream
/// whose next frame carries `m1`, the dial took exactly that frame and its
/// session holds the ciphers that `m1` gives the initiator — however the
/// transport split the stream into reads.
pub proof fn lemma_nk_dial_reads_whole_frame<T: NoiseTransport>(
    s: Session<T>,
    keypair: Keypair,
    remote_static: Seq<u8>,
    m1: Seq<u8>,
    rest: Seq<u8>,
)
    requires
        dialed(s, keypair, remote_static),
        m1.len() <= 65535,
        s.received().is_prefix_of(frame_bytes(m1) + rest),
    ensures
        s.received() == frame_bytes(m1),
        exists|e_priv: Seq<u8>| {
            &&& is_clamped(e_priv)
            &&& #[trigger] nk_dial_outcome(keypair.private_spec(), keypair.public_spec(), e_priv, remote_static, m1) matches Some(o)
            &&& s.send_state() == o.from_initiator
            &&& s.recv_state() == o.from_responder
        },
{
    let (e_priv, m1x) = choose|e_priv: Seq<u8>, m1x: Seq<u8>| {
        &&& is_clamped(e_priv)
        &&& #[trigger] nk_dial_outcome(keypair.private_spec(), keypair.public_spec(), e_priv, remote_static, m1x) matches Some(o)
        &&& s.send_state() == o.from_initiator
        &&& s.recv_state() == o.from_responder
        &&& !s.is_closed()
        &&& m1x.len() <= 65535
        &&& s.received() == frame_bytes(m1x)
        &&& s.sent() == nk_dial_written(keypair.private_spec(), keypair.public_spec(), e_priv, remote_static)
    };
    crate::framing::lemma_leading_frame(m1x, m1, rest);
}

/// An NK accept reads the initiator's message whole: when the bytes a
/// successful accept took from its transport are a beginning of a stream
/// whose next frame carries `m0`, the accept took exactly that frame and its
/// session holds the ciphers that `m0` gives the responder — however the
/// transport split the stream into reads.
pub proof fn lemma_nk_accept_reads_whole_frame<T: NoiseTransport>(s: Session<T>, keypair: Keypair, m0: Seq<u8>, rest: Seq<u8>)
    requires
        accepted(s, keypair),
        m0.len() <= 65535,
        s.received().is_prefix_of(frame_bytes(m0) + rest),
    ensures
        s.received() == frame_bytes(m0),
        exists|e_priv: Seq<u8>| {
            &&& is_clamped(e_priv)
            &&& #[trigger] nk_accept_outcome(keypair.private_spec(), keypair.public_spec(), e_priv, m0) matches Some(o)
            &&& s.send_state() == o.from_responder
            &&& s.recv_state() == o.from_initiator
        },
{
    let (e_priv, m0x) = choose|e_priv: Seq<u8>, m0x: Seq<u8>| {
        &&& is_clamped(e_priv)
        &&& #[trigger] nk_accept_outcome(keypair.private_spec(), keypair.public_spec(), e_priv, m0x) matches Some(o)
        &&& s.send_state() == o.from_responder
        &&& s.recv_state() == o.from_initiator
        &&& !s.is_closed()
        &&& m0x.len() <= 65535
        &&& s.received() == frame_bytes(m0x)
        &&& s.sent() == nk_accept_written(keypair.private_spec(), keypair.public_spec(), e_priv, m0x)
    };
    crate::framing::lemma_leading_frame(m0x, m0, rest);
}

} // verus!
