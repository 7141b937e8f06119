//! XX sessions: mutual authentication, no pre-shared knowledge.
use vstd::prelude::*;
use crate::cipher::CipherModel;
use crate::ffi::NoiseTransport;
use crate::framing::{after_read_failure, after_transport_error, frame_bytes, read_frame_recorded, write_frame_recorded};
use crate::handshake::{
    msg0_payload_text, msg0_too_short_text, msg1_missing_static_text, msg1_too_short_text,
    msg2_missing_static_text, xx_initial, HandshakeState, HsOutcome,
};
use crate::symmetric::sym_decrypt_error_text;
use crate::keypair::{is_clamped, spec_x25519_public, Keypair};
use crate::session::SessionInner;

verus! {

/// What the initiator of an XX handshake ends with, from its static keypair,
/// its ephemeral private key and the second message it received: the first
/// and third messages carry empty payloads. `None` when the second message
/// is refused.
pub open spec fn xx_dial_outcome(s_priv: Seq<u8>, s_pub: Seq<u8>, e_priv: Seq<u8>, m1: Seq<u8>) -> Option<HsOutcome> {
    let init = xx_initial((s_priv, s_pub), (e_priv, spec_x25519_public(e_priv)), Seq::empty());
    let (i1, _m0) = init.xx_write_msg0(Seq::empty());
    let (i2, got) = i1.xx_read_msg1(m1);
    if got is Ok {
        Some(i2.xx_write_msg2(Seq::empty()).1)
    } else {
        None
    }
}

/// What the responder of an XX handshake ends with, from its static keypair,
/// its ephemeral private key and the first and third messages it received:
/// its second message carries an empty payload. `None` when a message is
/// refused.
pub open spec fn xx_accept_outcome(s_priv: Seq<u8>, s_pub: Seq<u8>, e_priv: Seq<u8>, m0: Seq<u8>, m2: Seq<u8>) -> Option<HsOutcome> {
    let init = xx_initial((s_priv, s_pub), (e_priv, spec_x25519_public(e_priv)), Seq::empty());
    let (r1, got0) = init.xx_read_msg0(m0);
    if got0 is Ok {
        let (r2, _m1) = r1.xx_write_msg1(Seq::empty());
        match r2.xx_read_msg2(m2) {
            Ok((o, _)) => Some(o),
            Err(_) => None,
        }
    } else {
        None
    }
}

/// A fully negotiated, bidirectional encrypted channel produced by the XX
/// Handshake Pattern. Sessions are not resumable after close.
///
/// `remote_public_key()` returns the authenticated static public key of the
/// remote peer unconditionally — mutual authentication is guaranteed by XX.
pub struct Session<T: NoiseTransport> {
    inner: SessionInner<T>,
    remote_pub_key: [u8; 32],
}

impl<T: NoiseTransport> Session<T> {
    /// The cipher for outgoing messages.
    pub open spec fn send_state(&self) -> CipherModel {
        self.inner_spec().send_state()
    }

    /// The cipher for incoming messages.
    pub open spec fn recv_state(&self) -> CipherModel {
        self.inner_spec().recv_state()
    }

    /// The session has been closed.
    pub open spec fn is_closed(&self) -> bool {
        self.inner_spec().is_closed()
    }

    /// The remote peer's static public key.
    pub closed spec fn remote_key(&self) -> Seq<u8> {
        self.remote_pub_key@
    }

    /// The underlying shared session state.
    pub closed spec fn inner_spec(&self) -> SessionInner<T> {
        self.inner
    }

    /// Every byte this session has handed to its transport's writes.
    pub open spec fn sent(&self) -> Seq<u8> {
        self.inner_spec().sent()
    }

    /// Every byte this session has taken from its transport's reads.
    pub open spec fn received(&self) -> Seq<u8> {
        self.inner_spec().received()
    }

    fn new(
        conn: T,
        send_cs: crate::cipher::CipherState,
        recv_cs: crate::cipher::CipherState,
        remote_pub_key: [u8; 32],
        sent: Ghost<Seq<u8>>,
        received: Ghost<Seq<u8>>,
    ) -> (s: Self)
        ensures
            s.send_state() == send_cs@,
            s.recv_state() == recv_cs@,
            !s.is_closed(),
            s.remote_key() == remote_pub_key@,
            s.sent() == sent@,
            s.received() == received@,
    {
        Self { inner: SessionInner::after_handshake(conn, send_cs, recv_cs, sent, received), remote_pub_key }
    }

    /// Encrypts payload and writes it to the transport with a 2-byte
    /// big-endian length prefix. Behaves as `SessionInner::send`.
    pub fn send(&mut self, payload: &[u8]) -> (res: Result<(), String>)
        requires
            payload@.len() <= crate::framing::MAX_PLAINTEXT_SIZE && !old(self).is_closed() ==> old(self).send_state().can_advance(),
        ensures
            final(self).remote_key() == old(self).remote_key(),
            crate::session::send_contract(old(self).inner_spec(), final(self).inner_spec(), payload@, res),
    {
        self.inner.send(payload)
    }

    /// Reads one framed message from the transport and decrypts it.
    /// Behaves as `SessionInner::receive`.
    pub fn receive(&mut self) -> (res: Result<Vec<u8>, String>)
        requires
            !old(self).is_closed() ==> old(self).recv_state().can_advance(),
        ensures
            final(self).remote_key() == old(self).remote_key(),
            crate::session::receive_contract(old(self).inner_spec(), final(self).inner_spec(), res),
    {
        self.inner.receive()
    }

    /// Returns the authenticated static public key of the remote peer,
    /// established during the XX handshake. Trust policy is the caller's
    /// responsibility.
    pub fn remote_public_key(&self) -> (k: [u8; 32])
        ensures
            k@ == self.remote_key(),
    {
        self.remote_pub_key
    }

    /// Closes the session. Subsequent send/receive return errors.
    /// Sessions are not resumable after close.
    pub fn close(&mut self) -> (res: Result<(), String>)
        ensures
            res is Ok,
            final(self).is_closed(),
            final(self).send_state() == old(self).send_state(),
            final(self).recv_state() == old(self).recv_state(),
            final(self).remote_key() == old(self).remote_key(),
    {
        self.inner.close()
    }

    /// The frame that `send` writes for payload. Behaves as
    /// `SessionInner::seal_frame`.
    pub fn seal_frame(&mut self, payload: &[u8]) -> (res: Result<Vec<u8>, String>)
        requires
            payload@.len() <= crate::framing::MAX_PLAINTEXT_SIZE && !old(self).is_closed() ==> old(self).send_state().can_advance(),
        ensures
            final(self).remote_key() == old(self).remote_key(),
            crate::session::seal_contract(old(self).inner_spec(), final(self).inner_spec(), payload@, res),
    {
        self.inner.seal_frame(payload)
    }

    /// Decrypts the body of a frame received for this session. Behaves as
    /// `SessionInner::open_message`.
    pub fn open_message(&mut self, ciphertext: &[u8]) -> (res: Result<Vec<u8>, String>)
        requires
            !old(self).is_closed() ==> old(self).recv_state().can_advance(),
        ensures
            final(self).remote_key() == old(self).remote_key(),
            old(self).is_closed() ==> (res matches Err(e) && e@ == crate::session::session_closed_text()
                && final(self).inner_spec() == old(self).inner_spec()),
            !old(self).is_closed() ==> crate::session::open_contract(old(self).inner_spec(), final(self).inner_spec(), ciphertext@, res),
    {
        self.inner.open_message(ciphertext)
    }

    /// Whether the session has been closed.
    pub fn closed(&self) -> (b: bool)
        ensures
            b == self.is_closed(),
    {
        self.inner.closed()
    }

    /// The nonce counter of the outgoing cipher.
    pub fn send_nonce(&self) -> (n: u64)
        ensures
            n == self.send_state().n,
    {
        self.inner.send_nonce()
    }

    /// The nonce counter of the incoming cipher.
    pub fn receive_nonce(&self) -> (n: u64)
        ensures
            n == self.recv_state().n,
    {
        self.inner.receive_nonce()
    }
}

// ── dial / accept ─────────────────────────────────────────────────────────────

/// What an XX initiator writes on its transport, given the second message
/// it received: the frames of its first and third messages.
pub open spec fn xx_dial_written(s_priv: Seq<u8>, s_pub: Seq<u8>, e_priv: Seq<u8>, m1: Seq<u8>) -> Seq<u8> {
    let init = xx_initial((s_priv, s_pub), (e_priv, spec_x25519_public(e_priv)), Seq::empty());
    let (i1, m0) = init.xx_write_msg0(Seq::empty());
    frame_bytes(m0) + frame_bytes(i1.xx_read_msg1(m1).0.xx_write_msg2(Seq::empty()).0)
}

/// What an XX responder writes on its transport, given the first message it
/// received: the frame of its second message.
pub open spec fn xx_accept_written(s_priv: Seq<u8>, s_pub: Seq<u8>, e_priv: Seq<u8>, m0: Seq<u8>) -> Seq<u8> {
    let init = xx_initial((s_priv, s_pub), (e_priv, spec_x25519_public(e_priv)), Seq::empty());
    frame_bytes(init.xx_read_msg0(m0).0.xx_write_msg1(Seq::empty()).1)
}

/// The initiator's session ends as the XX initiator with this keypair, a
/// clamped ephemeral key and the second message it received.
pub open spec fn dialed<T: NoiseTransport>(s: Session<T>, keypair: Keypair) -> bool {
    exists|e_priv: Seq<u8>, m1: Seq<u8>| {
        &&& is_clamped(e_priv)
        &&& #[trigger] xx_dial_outcome(keypair.private_spec(), keypair.public_spec(), e_priv, m1) matches Some(o)
        &&& s.send_state() == o.from_initiator
        &&& s.recv_state() == o.from_responder
        &&& s.remote_key() == o.remote_static
        &&& !s.is_closed()
        &&& m1.len() <= 65535
        &&& s.received() == frame_bytes(m1)
        &&& s.sent() == xx_dial_written(keypair.private_spec(), keypair.public_spec(), e_priv, m1)
    }
}

/// The responder's session ends as the XX responder with this keypair, a
/// clamped ephemeral key and the first and third messages it received.
pub open spec fn accepted<T: NoiseTransport>(s: Session<T>, keypair: Keypair) -> bool {
    exists|e_priv: Seq<u8>, m0: Seq<u8>, m2: Seq<u8>| {
        &&& is_clamped(e_priv)
        &&& #[trigger] xx_accept_outcome(keypair.private_spec(), keypair.public_spec(), e_priv, m0, m2) matches Some(o)
        &&& s.send_state() == o.from_responder
        &&& s.recv_state() == o.from_initiator
        &&& s.remote_key() == o.remote_static
        &&& !s.is_closed()
        &&& m0.len() <= 65535
        &&& m2.len() <= 65535
        &&& s.received() == frame_bytes(m0) + frame_bytes(m2)
        &&& s.sent() == xx_accept_written(keypair.private_spec(), keypair.public_spec(), e_priv, m0)
    }
}

/// The errors an XX initiator reports: its first or third message could
/// not be written, the second could not be read, or the second was refused.
pub open spec fn xx_dial_error(t: Seq<char>) -> bool {
    ||| after_transport_error("noise: write_msg0: "@, t)
    ||| after_read_failure("noise: read msg1: "@, t)
    ||| t == msg1_too_short_text()
    ||| t == msg1_missing_static_text()
    ||| t == sym_decrypt_error_text()
    ||| after_transport_error("noise: write msg2: "@, t)
}

/// The errors an XX responder reports: the first or third message could not
/// be read or was refused, or its second message could not be written.
pub open spec fn xx_accept_error(t: Seq<char>) -> bool {
    ||| after_read_failure("noise: read msg0: "@, t)
    ||| (exists|n: nat| n < 32 && t == #[trigger] msg0_too_short_text(n))
    ||| t == msg0_payload_text()
    ||| after_transport_error("noise: write_msg1: "@ + "noise: write msg1: "@, t)
    ||| after_read_failure("noise: read msg2: "@, t)
    ||| t == msg2_missing_static_text()
    ||| t == sym_decrypt_error_text()
}

/// Performs the XX handshake as the Initiator over conn using the provided
/// Keypair. Returns a Session on success or an Expected Failure error.
pub fn dial<T: NoiseTransport>(conn: T, keypair: Keypair) -> (res: Result<Session<T>, String>)
    ensures
        res matches Ok(s) ==> dialed(s, keypair),
        res matches Err(e) ==> xx_dial_error(e@),
{
    do_handshake(conn, keypair, true)
}

/// Performs the XX handshake as the Responder over conn using the provided
/// Keypair. Returns a Session on success or an Expected Failure error.
pub fn accept<T: NoiseTransport>(conn: T, keypair: Keypair) -> (res: Result<Session<T>, String>)
    ensures
        res matches Ok(s) ==> accepted(s, keypair),
        res matches Err(e) ==> xx_accept_error(e@),
{
    do_handshake(conn, keypair, false)
}

/// Runs the XX handshake over conn as the Initiator or the Responder: the
/// session's ciphers and remote key are those of that role with this
/// keypair, a fresh clamped ephemeral key and the messages received.
fn do_handshake<T: NoiseTransport>(conn: T, keypair: Keypair, initiator: bool) -> (res: Result<Session<T>, String>)
    ensures
        res matches Ok(s) ==> (if initiator { dialed(s, keypair) } else { accepted(s, keypair) }),
        res matches Err(e) ==> (if initiator { xx_dial_error(e@) } else { xx_accept_error(e@) }),
{
    let ghost s_priv = keypair.private_spec();
    let ghost s_pub = keypair.public_spec();
    let ghost kp = keypair;
    let mut hs = HandshakeState::new(keypair);
    let ghost e_priv = hs@.e_priv;
    let empty: Vec<u8> = Vec::new();

    if initiator {
        // -> e
        let msg0 = hs.write_msg0(empty.as_slice());
        let (w0, Ghost(sent0)) = write_frame_recorded(&conn, msg0.as_slice());
        match w0 {
            Ok(()) => {},
            Err(e) => {
                let t = String::from_str("noise: write_msg0: ").concat(e.as_str());
                assert(t@ == "noise: write_msg0: "@ + e@);
                return Err(t);
            },
        }
        // <- e, ee, s, es
        let (r1, Ghost(got1)) = read_frame_recorded(&conn, "failed to fill whole buffer");
        let msg1 = match r1 {
            Ok(m) => m,
            Err(e) => {
                let t = String::from_str("noise: read msg1: ").concat(e.as_str());
                assert(t@ == "noise: read msg1: "@ + e@);
                return Err(t);
            },
        };
        hs.read_msg1(msg1.as_slice())?;
        // -> s, se
        let (msg2, fi, fr, _hash, rs) = hs.write_msg2(empty.as_slice());
        let (w2, Ghost(sent2)) = write_frame_recorded(&conn, msg2.as_slice());
        match w2 {
            Ok(()) => {},
            Err(e) => {
                let t = String::from_str("noise: write msg2: ").concat(e.as_str());
                assert(t@ == "noise: write msg2: "@ + e@);
                return Err(t);
            },
        }
        let s = Session::new(conn, fi, fr, rs, Ghost(sent0 + sent2), Ghost(got1));
        assert(xx_dial_outcome(s_priv, s_pub, e_priv, msg1@) matches Some(o) && s.send_state() == o.from_initiator);
        assert(dialed(s, kp));
        Ok(s)
    } else {
        // <- e
        let (r0, Ghost(got0)) = read_frame_recorded(&conn, "failed to fill whole buffer");
        let msg0 = match r0 {
            Ok(m) => m,
            Err(e) => {
                let t = String::from_str("noise: read msg0: ").concat(e.as_str());
                assert(t@ == "noise: read msg0: "@ + e@);
                return Err(t);
            },
        };
        match hs.read_msg0(msg0.as_slice()) {
            Ok(()) => {},
            Err(e) => {
                assert(msg0@.len() < 32 ==> e@ == msg0_too_short_text(msg0@.len()));
                return Err(e);
            },
        }
        // -> e, ee, s, es
        let msg1 = hs.write_msg1(empty.as_slice());
        let (w1, Ghost(sent1)) = write_frame_recorded(&conn, msg1.as_slice());
        match w1 {
            Ok(()) => {},
            Err(e) => {
                let inner = String::from_str("noise: write msg1: ").concat(e.as_str());
                let t = String::from_str("noise: write_msg1: ").concat(inner.as_str());
                assert(t@ =~= ("noise: write_msg1: "@ + "noise: write msg1: "@) + e@);
                return Err(t);
            },
        }
        // <- s, se
        let (r2, Ghost(got2)) = read_frame_recorded(&conn, "failed to fill whole buffer");
        let msg2 = match r2 {
            Ok(m) => m,
            Err(e) => {
                let t = String::from_str("noise: read msg2: ").concat(e.as_str());
                assert(t@ == "noise: read msg2: "@ + e@);
                return Err(t);
            },
        };
        let (fi, fr, _hash, rs) = hs.read_msg2(msg2.as_slice())?;
        let s = Session::new(conn, fr, fi, rs, Ghost(sent1), Ghost(got0 + got2));
        assert(xx_accept_outcome(s_priv, s_pub, e_priv, msg0@, msg2@) matches Some(o) && s.send_state() == o.from_responder);
        assert(accepted(s, kp));
        Ok(s)
    }
}

} // verus!

verus! {

/// Honest XX sessions agree: when each side's messages reach the other
/// unchanged, the dialing and the accepting side both complete, the
/// initiator's outgoing cipher is the responder's incoming one and the other
/// way round, both hold the same handshake hash, and each holds the other's
/// static public key — given that X25519 agrees for the three key pairs the
/// pattern combines and that ChaCha20-Poly1305 decrypts what it encrypts.
pub proof fn lemma_xx_sessions_agree(
    i_priv: Seq<u8>,
    i_pub: Seq<u8>,
    ie_priv: Seq<u8>,
    r_priv: Seq<u8>,
    r_pub: Seq<u8>,
    re_priv: Seq<u8>,
)
    requires
        i_pub.len() == 32,
        r_pub.len() == 32,
        spec_x25519_public(ie_priv).len() == 32,
        spec_x25519_public(re_priv).len() == 32,
        crate::handshake::aead_is_correct(),
        crate::handshake::dh_agrees(ie_priv, spec_x25519_public(ie_priv), re_priv, spec_x25519_public(re_priv)),
        crate::handshake::dh_agrees(ie_priv, spec_x25519_public(ie_priv), r_priv, r_pub),
        crate::handshake::dh_agrees(i_priv, i_pub, re_priv, spec_x25519_public(re_priv)),
    ensures
        ({
            let i0 = xx_initial((i_priv, i_pub), (ie_priv, spec_x25519_public(ie_priv)), Seq::empty());
            let r0 = xx_initial((r_priv, r_pub), (re_priv, spec_x25519_public(re_priv)), Seq::empty());
            let (i1, m0) = i0.xx_write_msg0(Seq::empty());
            let (r2, m1) = r0.xx_read_msg0(m0).0.xx_write_msg1(Seq::empty());
            let (m2, _) = i1.xx_read_msg1(m1).0.xx_write_msg2(Seq::empty());
            &&& xx_dial_outcome(i_priv, i_pub, ie_priv, m1) matches Some(oi)
            &&& xx_accept_outcome(r_priv, r_pub, re_priv, m0, m2) matches Some(or)
            &&& oi.from_initiator == or.from_initiator
            &&& oi.from_responder == or.from_responder
            &&& oi.hash == or.hash
            &&& oi.remote_static == r_pub
            &&& or.remote_static == i_pub
        }),
{
    let i0 = xx_initial((i_priv, i_pub), (ie_priv, spec_x25519_public(ie_priv)), Seq::empty());
    let r0 = xx_initial((r_priv, r_pub), (re_priv, spec_x25519_public(re_priv)), Seq::empty());
    crate::handshake::lemma_xx_handshake_agreement(i0, r0, Seq::empty(), Seq::empty(), Seq::empty());
}

} // verus!

verus! {

/// A dial reads the responder's second message whole: when the bytes a
/// successful dial took from its transport are a beginning of a stream
/// whose next frame carries `m1`, the dial took exactly that frame and its
/// session holds the ciphers and remote key that `m1` gives the initiator —
/// however the transport split the stream into reads.
pub proof fn lemma_xx_dial_reads_whole_frame<T: NoiseTransport>(s: Session<T>, keypair: Keypair, m1: Seq<u8>, rest: Seq<u8>)
    requires
        dialed(s, keypair),
        m1.len() <= 65535,
        s.received().is_prefix_of(frame_bytes(m1) + rest),
    ensures
        s.received() == frame_bytes(m1),
        exists|e_priv: Seq<u8>| {
            &&& is_clamped(e_priv)
            &&& #[trigger] xx_dial_outcome(keypair.private_spec(), keypair.public_spec(), e_priv, m1) matches Some(o)
            &&& s.send_state() == o.from_initiator
            &&& s.recv_state() == o.from_responder
            &&& s.remote_key() == o.remote_static
        },
{
    let (e_priv, m1x) = choose|e_priv: Seq<u8>, m1x: Seq<u8>| {
        &&& is_clamped(e_priv)
        &&& #[trigger] xx_dial_outcome(keypair.private_spec(), keypair.public_spec(), e_priv, m1x) matches Some(o)
        &&& s.send_state() == o.from_initiator
        &&& s.recv_state() == o.from_responder
        &&& s.remote_key() == o.remote_static
        &&& !s.is_closed()
        &&& m1x.len() <= 65535
        &&& s.received() == frame_bytes(m1x)
        &&& s.sent() == xx_dial_written(keypair.private_spec(), keypair.public_spec(), e_priv, m1x)
    };
    crate::framing::lemma_leading_frame(m1x, m1, rest);
}

/// An accept reads the initiator's first and third messages whole: when the
/// bytes a successful accept took from its transport are a beginning of a
/// stream whose next two frames carry `m0` and `m2`, the accept took exactly
/// those frames and its session holds the ciphers and remote key that they
/// give the responder — however the transport split the stream into reads.
pub proof fn lemma_xx_accept_reads_whole_frames<T: NoiseTransport>(
    s: Session<T>,
    keypair: Keypair,
    m0: Seq<u8>,
    m2: Seq<u8>,
    rest: Seq<u8>,
)
    requires
        accepted(s, keypair),
        m0.len() <= 65535,
        m2.len() <= 65535,
        s.received().is_prefix_of(frame_bytes(m0) + frame_bytes(m2) + rest),
    ensures
        s.received() == frame_bytes(m0) + frame_bytes(m2),
        exists|e_priv: Seq<u8>| {
            &&& is_clamped(e_priv)
            &&& #[trigger] xx_accept_outcome(keypair.private_spec(), keypair.public_spec(), e_priv, m0, m2) matches Some(o)
            &&& s.send_state() == o.from_responder
            &&& s.recv_state() == o.from_initiator
            &&& s.remote_key() == o.remote_static
        },
{
    let (e_priv, m0x, m2x) = choose|e_priv: Seq<u8>, m0x: Seq<u8>, m2x: Seq<u8>| {
        &&& is_clamped(e_priv)
        &&& #[trigger] xx_accept_outcome(keypair.private_spec(), keypair.public_spec(), e_priv, m0x, m2x) matches Some(o)
        &&& s.send_state() == o.from_responder
        &&& s.recv_state() == o.from_initiator
        &&& s.remote_key() == o.remote_static
        &&& !s.is_closed()
        &&& m0x.len() <= 65535
        &&& m2x.len() <= 65535
        &&& s.received() == frame_bytes(m0x) + frame_bytes(m2x)
        &&& s.sent() == xx_accept_written(keypair.private_spec(), keypair.public_spec(), e_priv, m0x)
    };
    let stream = frame_bytes(m0) + frame_bytes(m2) + rest;
    assert(frame_bytes(m0x).is_prefix_of(frame_bytes(m0) + (frame_bytes(m2) + rest))) by {
        assert(frame_bytes(m0) + (frame_bytes(m2) + rest) =~= stream);
        assert forall|k: int| 0 <= k < frame_bytes(m0x).len() implies frame_bytes(m0x)[k] == stream[k] by {
            assert(s.received()[k] == frame_bytes(m0x)[k]);
        }
    }
    crate::framing::lemma_leading_frame(m0x, m0, frame_bytes(m2) + rest);
    let n0 = frame_bytes(m0).len() as int;
    assert(frame_bytes(m2x).is_prefix_of(frame_bytes(m2) + rest)) by {
        assert forall|k: int| 0 <= k < frame_bytes(m2x).len() implies frame_bytes(m2x)[k] == (frame_bytes(m2) + rest)[k] by {
            assert(s.received()[n0 + k] == frame_bytes(m2x)[k]);
            assert(stream[n0 + k] == (frame_bytes(m2) + rest)[k]);
        }
    }
    crate::framing::lemma_leading_frame(m2x, m2, rest);
}

} // verus!
