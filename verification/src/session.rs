//! Shared post-handshake state: the caller's transport, one CipherState per
//! direction and the closed flag. The handshake pattern affects how a
//! SessionInner is constructed, not how it behaves afterwards.
use vstd::prelude::*;
use crate::cipher::{CipherModel, CipherState};
use crate::ffi::NoiseTransport;
use crate::framing::{
    encode_frame, frame_bytes, header_len, is_transport_text, partial_frame, read_exact_recorded, MAX_PLAINTEXT_SIZE,
};
use crate::text::{decimal, decimal_string};

verus! {

/// Error text of a payload over the plaintext limit.
pub open spec fn payload_exceeds_text(len: nat) -> Seq<char> {
    "noise: payload exceeds maximum message size ("@ + decimal(len) + " > 65519)"@
}

/// Error text of an operation on a closed session.
pub open spec fn session_closed_text() -> Seq<char> {
    "noise: session is closed"@
}

/// Error text of a failed transport write.
pub open spec fn send_failed_text(t: Seq<char>) -> bool {
    exists|e: Seq<char>| is_transport_text(e) && t == #[trigger] ("noise: send: "@ + e)
}

/// Why a read failed: the connection ended, or the transport reported an
/// error.
pub open spec fn read_failure_text(e: Seq<char>) -> bool {
    e == "connection closed"@ || is_transport_text(e)
}

/// Error text of a failed read of a message header.
pub open spec fn receive_header_failed_text(t: Seq<char>) -> bool {
    exists|e: Seq<char>| read_failure_text(e) && t == #[trigger] ("noise: receive header: "@ + e)
}

/// Error text of a failed read of a message body.
pub open spec fn receive_body_failed_text(t: Seq<char>) -> bool {
    exists|e: Seq<char>| read_failure_text(e) && t == #[trigger] ("noise: receive body: "@ + e)
}

/// Error text of a failed read, of the header or the body.
pub open spec fn receive_failed_text(t: Seq<char>) -> bool {
    receive_header_failed_text(t) || receive_body_failed_text(t)
}

/// Error text of a message that does not authenticate.
pub open spec fn receive_decrypt_text() -> Seq<char> {
    "noise: decrypt: Decrypt"@
}

/// What `SessionInner::send` promises of the states before (`pre`) and
/// after (`post`) a call with `payload`, and of its result.
pub open spec fn send_contract<T: NoiseTransport>(
    pre: SessionInner<T>,
    post: SessionInner<T>,
    payload: Seq<u8>,
    res: Result<(), String>,
) -> bool {
    &&& payload.len() > MAX_PLAINTEXT_SIZE ==> (res matches Err(e) && e@ == payload_exceeds_text(payload.len())
        && post == pre)
    &&& payload.len() <= MAX_PLAINTEXT_SIZE && pre.is_closed() ==> (res matches Err(e)
        && e@ == session_closed_text() && post == pre)
    &&& payload.len() <= MAX_PLAINTEXT_SIZE && !pre.is_closed() ==> {
        &&& post.send_state() == pre.send_state().next()
        &&& post.recv_state() == pre.recv_state()
        &&& !post.is_closed()
        &&& post.sent() == pre.sent() + frame_bytes(pre.send_state().seal(Seq::empty(), payload))
        &&& pre.send_state().seal(Seq::empty(), payload).len() == payload.len() + 16
        &&& pre.send_state().open(Seq::empty(), pre.send_state().seal(Seq::empty(), payload)) == Some(payload)
        &&& post.received() == pre.received()
        &&& res matches Err(e) ==> send_failed_text(e@)
    }
}

/// What `SessionInner::receive` promises of the states before (`pre`) and
/// after (`post`) a call, and of its result.
pub open spec fn receive_contract<T: NoiseTransport>(
    pre: SessionInner<T>,
    post: SessionInner<T>,
    res: Result<Vec<u8>, String>,
) -> bool {
    &&& pre.is_closed() ==> (res matches Err(e) && e@ == session_closed_text() && post == pre)
    &&& !pre.is_closed() ==> {
        &&& post.send_state() == pre.send_state()
        &&& !post.is_closed()
        &&& post.sent() == pre.sent()
        &&& match res {
            Ok(p) => exists|ct: Seq<u8>| ct.len() <= 65535
                && #[trigger] pre.recv_state().open(Seq::empty(), ct) == Some(p@)
                && post.received() == pre.received() + frame_bytes(ct)
                && post.recv_state() == pre.recv_state().next(),
            Err(e) => (receive_failed_text(e@) && post.recv_state() == pre.recv_state()
                && exists|got: Seq<u8>| partial_frame(got) && post.received() == #[trigger] (pre.received() + got))
                || (e@ == receive_decrypt_text() && post.recv_state() == pre.recv_state()
                && exists|ct: Seq<u8>| ct.len() <= 65535
                    && #[trigger] pre.recv_state().open(Seq::empty(), ct) is None
                    && post.received() == pre.received() + frame_bytes(ct)),
        }
    }
}

/// What `SessionInner::seal_frame` promises of the states before (`pre`)
/// and after (`post`) a call with `payload`, and of its result: oversize
/// payloads and closed sessions are refused and change nothing; otherwise
/// the frame is the payload sealed under the outgoing cipher with empty
/// associated data behind its 2-byte length, 18 bytes longer than the
/// payload, and that cipher opens its body back to the payload; only the
/// outgoing nonce advances.
pub open spec fn seal_contract<T: NoiseTransport>(
    pre: SessionInner<T>,
    post: SessionInner<T>,
    payload: Seq<u8>,
    res: Result<Vec<u8>, String>,
) -> bool {
    &&& payload.len() > MAX_PLAINTEXT_SIZE ==> (res matches Err(e) && e@ == payload_exceeds_text(payload.len())
        && post == pre)
    &&& payload.len() <= MAX_PLAINTEXT_SIZE && pre.is_closed() ==> (res matches Err(e)
        && e@ == session_closed_text() && post == pre)
    &&& payload.len() <= MAX_PLAINTEXT_SIZE && !pre.is_closed() ==> {
        &&& res matches Ok(frame) && frame@ == frame_bytes(pre.send_state().seal(Seq::empty(), payload))
            && frame@.len() == payload.len() + 18
            && pre.send_state().open(Seq::empty(), frame@.skip(2)) == Some(payload)
        &&& post.send_state() == pre.send_state().next()
        &&& post.recv_state() == pre.recv_state()
        &&& !post.is_closed()
        &&& post.sent() == pre.sent()
        &&& post.received() == pre.received()
    }
}

/// Writes a sealed frame to a session's transport in one write; a failed
/// write is reported with the transport's error text.
pub fn write_message<T: NoiseTransport>(conn: &T, frame: Vec<u8>) -> (res: Result<(), String>)
    ensures
        res matches Err(e) ==> send_failed_text(e@),
{
    match conn.write(frame) {
        Ok(()) => Ok(()),
        Err(e) => {
            let inner = e.to_string();
            assert(is_transport_text(inner@));
            let t = String::from_str("noise: send: ").concat(inner.as_str());
            assert(send_failed_text(t@));
            Err(t)
        },
    }
}

/// What decrypting a received body promises of the states before (`pre`)
/// and after (`post`), and of the result: the body is opened under the
/// incoming cipher with empty associated data; the incoming nonce advances
/// only when it authenticates; nothing else changes.
pub open spec fn open_contract<T: NoiseTransport>(
    pre: SessionInner<T>,
    post: SessionInner<T>,
    ciphertext: Seq<u8>,
    res: Result<Vec<u8>, String>,
) -> bool {
    &&& post.send_state() == pre.send_state()
    &&& post.is_closed() == pre.is_closed()
    &&& post.sent() == pre.sent()
    &&& post.received() == pre.received()
    &&& match res {
        Ok(p) => pre.recv_state().open(Seq::empty(), ciphertext) == Some(p@)
            && post.recv_state() == pre.recv_state().next(),
        Err(e) => pre.recv_state().open(Seq::empty(), ciphertext) is None
            && e@ == receive_decrypt_text()
            && post.recv_state() == pre.recv_state(),
    }
}

/// Reads the next frame of a session's incoming traffic: the 2-byte header,
/// then the body it announces, which is returned. A read that fails is
/// reported with the part that was being read. The ghost result is every
/// byte taken from the reads: on success exactly the frame of the body, on
/// failure a partial frame.
pub fn read_message_recorded<T: NoiseTransport>(conn: &T) -> (res: (Result<Vec<u8>, String>, Ghost<Seq<u8>>))
    ensures
        match res.0 {
            Ok(body) => body@.len() <= crate::framing::MAX_FRAME_SIZE && res.1@ == frame_bytes(body@),
            Err(e) => receive_failed_text(e@) && partial_frame(res.1@),
        },
{
    let (hres, Ghost(hgot)) = read_exact_recorded(conn, 2, "connection closed");
    let header = match hres {
        Ok(h) => h,
        Err(e) => {
            let t = String::from_str("noise: receive header: ").concat(e.as_str());
            assert(t@ == "noise: receive header: "@ + e@);
            assert(receive_failed_text(t@));
            return (Err(t), Ghost(hgot));
        },
    };
    let size = header_len([header[0], header[1]]);
    assert(header@ =~= seq![header[0], header[1]]);
    let (bres, Ghost(bgot)) = read_exact_recorded(conn, size, "connection closed");
    proof {
        assert((hgot + bgot).take(2) =~= hgot);
    }
    match bres {
        Ok(c) => {
            proof {
                crate::framing::lemma_header_then_body(header@, c@);
            }
            (Ok(c), Ghost(hgot + bgot))
        },
        Err(e) => {
            let t = String::from_str("noise: receive body: ").concat(e.as_str());
            assert(t@ == "noise: receive body: "@ + e@);
            assert(receive_failed_text(t@));
            (Err(t), Ghost(hgot + bgot))
        },
    }
}

/// Reads the next frame of a session's incoming traffic; see
/// `read_message_recorded`.
pub fn read_message<T: NoiseTransport>(conn: &T) -> (res: Result<Vec<u8>, String>)
    ensures
        match res {
            Ok(body) => body@.len() <= crate::framing::MAX_FRAME_SIZE,
            Err(e) => receive_failed_text(e@),
        },
{
    read_message_recorded(conn).0
}

/// Shared post-handshake state used by both `session_xx::Session` and
/// `session_nk::Session`.
pub struct SessionInner<T: NoiseTransport> {
    conn: T,
    send_cs: CipherState,
    recv_cs: CipherState,
    closed: bool,
    sent: Ghost<Seq<u8>>,
    received: Ghost<Seq<u8>>,
}

impl<T: NoiseTransport> SessionInner<T> {
    /// The cipher for outgoing messages.
    pub closed spec fn send_state(&self) -> CipherModel {
        self.send_cs@
    }

    /// The cipher for incoming messages.
    pub closed spec fn recv_state(&self) -> CipherModel {
        self.recv_cs@
    }

    /// The session has been closed.
    pub closed spec fn is_closed(&self) -> bool {
        self.closed
    }

    /// Every byte this session has handed to its transport's writes, in
    /// order (the handshake's messages first, for a session that a
    /// handshake produced).
    pub closed spec fn sent(&self) -> Seq<u8> {
        self.sent@
    }

    /// Every byte this session has taken from its transport's reads, in
    /// order (the handshake's messages first, for a session that a
    /// handshake produced).
    pub closed spec fn received(&self) -> Seq<u8> {
        self.received@
    }

    /// An open session over `conn` with the given directional ciphers.
    pub fn new(conn: T, send_cs: CipherState, recv_cs: CipherState) -> (s: Self)
        ensures
            s.send_state() == send_cs@,
            s.recv_state() == recv_cs@,
            !s.is_closed(),
            s.sent() == Seq::<u8>::empty(),
            s.received() == Seq::<u8>::empty(),
    {
        Self { conn, send_cs, recv_cs, closed: false, sent: Ghost(Seq::empty()), received: Ghost(Seq::empty()) }
    }

    /// An open session over `conn` whose handshake wrote `sent` and read
    /// `received` on it.
    pub(crate) fn after_handshake(
        conn: T,
        send_cs: CipherState,
        recv_cs: CipherState,
        sent: Ghost<Seq<u8>>,
        received: Ghost<Seq<u8>>,
    ) -> (s: Self)
        ensures
            s.send_state() == send_cs@,
            s.recv_state() == recv_cs@,
            !s.is_closed(),
            s.sent() == sent@,
            s.received() == received@,
    {
        Self { conn, send_cs, recv_cs, closed: false, sent, received }
    }

    /// Whether the session has been closed.
    pub fn closed(&self) -> (b: bool)
        ensures
            b == self.is_closed(),
    {
        self.closed
    }

    /// The nonce counter of the outgoing cipher.
    pub fn send_nonce(&self) -> (n: u64)
        ensures
            n == self.send_state().n,
    {
        self.send_cs.nonce()
    }

    /// The nonce counter of the incoming cipher.
    pub fn receive_nonce(&self) -> (n: u64)
        ensures
            n == self.recv_state().n,
    {
        self.recv_cs.nonce()
    }

    /// The frame that `send` writes for payload: the payload encrypted under
    /// the outgoing cipher with empty associated data, behind a 2-byte
    /// big-endian length prefix. The outgoing nonce advances. Oversize
    /// payloads and closed sessions are refused and change nothing.
    pub fn seal_frame(&mut self, payload: &[u8]) -> (res: Result<Vec<u8>, String>)
        requires
            payload@.len() <= MAX_PLAINTEXT_SIZE && !old(self).is_closed() ==> old(self).send_state().can_advance(),
        ensures
            seal_contract(*old(self), *final(self), payload@, res),
    {
        if payload.len() > MAX_PLAINTEXT_SIZE {
            let t = String::from_str("noise: payload exceeds maximum message size (")
                .concat(decimal_string(payload.len()).as_str());
            return Err(t.concat(" > 65519)"));
        }
        if self.closed {
            return Err(String::from_str("noise: session is closed"));
        }
        let empty: Vec<u8> = Vec::new();
        let ciphertext = self.send_cs.encrypt(empty.as_slice(), payload);
        let frame = encode_frame(ciphertext.as_slice());
        assert(frame@.skip(2) =~= ciphertext@);
        assert(empty@ =~= Seq::<u8>::empty());
        Ok(frame)
    }

    /// Encrypts payload and writes it to the transport with a 2-byte
    /// big-endian length prefix, in one write: the frame that `seal_frame`
    /// gives. Oversize payloads and closed sessions are refused before
    /// anything is encrypted or written.
    pub fn send(&mut self, payload: &[u8]) -> (res: Result<(), String>)
        requires
            payload@.len() <= MAX_PLAINTEXT_SIZE && !old(self).is_closed() ==> old(self).send_state().can_advance(),
        ensures
            send_contract(*old(self), *final(self), payload@, res),
    {
        let framed = match self.seal_frame(payload) {
            Ok(f) => f,
            Err(e) => return Err(e),
        };
        let ghost handed = framed@;
        proof {
            let ct = old(self).send_state().seal(Seq::empty(), payload@);
            assert(frame_bytes(ct).skip(2) =~= ct);
        }
        let res = write_message(&self.conn, framed);
        self.sent = Ghost(self.sent@ + handed);
        res
    }

    /// Reads one framed message from the transport, decrypts it, and returns
    /// the plaintext. A failed read, or a message that does not authenticate,
    /// leaves the ciphers as they were.
    pub fn receive(&mut self) -> (res: Result<Vec<u8>, String>)
        requires
            !old(self).is_closed() ==> old(self).recv_state().can_advance(),
        ensures
            receive_contract(*old(self), *final(self), res),
    {
        if self.closed {
            return Err(String::from_str("noise: session is closed"));
        }
        let (read, Ghost(got)) = read_message_recorded(&self.conn);
        self.received = Ghost(self.received@ + got);
        let ciphertext = match read {
            Ok(c) => c,
            Err(e) => {
                assert(self.received() == old(self).received() + got);
                return Err(e);
            },
        };
        self.open_body(ciphertext.as_slice())
    }

    /// Decrypts the body of a frame received for this session: a closed
    /// session refuses it and changes nothing; otherwise as `open_body`.
    pub fn open_message(&mut self, ciphertext: &[u8]) -> (res: Result<Vec<u8>, String>)
        requires
            !old(self).is_closed() ==> old(self).recv_state().can_advance(),
        ensures
            old(self).is_closed() ==> (res matches Err(e) && e@ == session_closed_text() && *final(self) == *old(self)),
            !old(self).is_closed() ==> open_contract(*old(self), *final(self), ciphertext@, res),
    {
        if self.closed {
            return Err(String::from_str("noise: session is closed"));
        }
        self.open_body(ciphertext)
    }

    /// Decrypts the body of a received frame under the incoming cipher with
    /// empty associated data; the incoming nonce advances only when the body
    /// authenticates.
    pub fn open_body(&mut self, ciphertext: &[u8]) -> (res: Result<Vec<u8>, String>)
        requires
            old(self).recv_state().can_advance(),
        ensures
            final(self).send_state() == old(self).send_state(),
            final(self).is_closed() == old(self).is_closed(),
            open_contract(*old(self), *final(self), ciphertext@, res),
    {
        let empty: Vec<u8> = Vec::new();
        match self.recv_cs.decrypt(empty.as_slice(), ciphertext) {
            Ok(p) => Ok(p),
            Err(_) => Err(String::from_str("noise: decrypt: Decrypt")),
        }
    }

    /// Closes the session. Subsequent send/receive return errors.
    pub fn close(&mut self) -> (res: Result<(), String>)
        ensures
            res is Ok,
            final(self).is_closed(),
            final(self).send_state() == old(self).send_state(),
            final(self).recv_state() == old(self).recv_state(),
    {
        self.closed = true;
        Ok(())
    }
}

} // verus!

verus! {

/// A transport message round-trips: the frame a session sends for a
/// payload within the limit announces the ciphertext's length in its
/// header, and a peer whose receive cipher equals the sender's send cipher
/// decrypts the body back to the payload — given that ChaCha20-Poly1305
/// decrypts what it encrypts.
pub proof fn lemma_transport_message_roundtrip(c: CipherModel, payload: Seq<u8>)
    requires
        crate::handshake::aead_is_correct(),
        payload.len() <= MAX_PLAINTEXT_SIZE,
    ensures
        ({
            let f = frame_bytes(c.seal(Seq::empty(), payload));
            &&& f.len() <= 65537
            &&& crate::framing::header_value(f.take(2)) == f.len() - 2
            &&& c.open(Seq::empty(), f.skip(2)) == Some(payload)
        }),
{
    let ct = crate::cipher::spec_chacha_seal(c.key, crate::cipher::nonce_bytes(c.n), Seq::empty(), payload);
    assert(c.seal(Seq::empty(), payload) == ct);
    assert(ct.len() == payload.len() + 16);
    crate::framing::lemma_frame_roundtrip(ct);
}

/// Sessions are not resumable after close: on a closed session every send
/// and every receive fails, and the session stays closed with its ciphers
/// unchanged.
pub proof fn lemma_closed_session_stays_closed<T: NoiseTransport>(pre: SessionInner<T>)
    requires
        pre.is_closed(),
    ensures
        forall|post: SessionInner<T>, payload: Seq<u8>, res: Result<(), String>|
            #[trigger] send_contract(pre, post, payload, res) ==> post.is_closed() && res is Err
                && post.send_state() == pre.send_state() && post.recv_state() == pre.recv_state(),
        forall|post: SessionInner<T>, res: Result<Vec<u8>, String>|
            #[trigger] receive_contract(pre, post, res) ==> post.is_closed() && res is Err
                && post.send_state() == pre.send_state() && post.recv_state() == pre.recv_state(),
{
}

/// `a + b == a + c` only when `b == c`.
proof fn lemma_append_cancels(a: Seq<u8>, b: Seq<u8>, c: Seq<u8>)
    requires
        a + b == a + c,
    ensures
        b == c,
{
    assert(b =~= (a + b).skip(a.len() as int));
    assert(c =~= (a + c).skip(a.len() as int));
}

/// A receive reads a whole frame: when the bytes a receive on an open
/// session takes from its transport are a beginning of a stream whose next
/// frame carries `ct`, and its incoming cipher opens `ct` to `p`, then the
/// receive either returns `p` having taken exactly that frame, or reports a
/// failed read having taken less than the frame — however the transport
/// split the stream into reads.
pub proof fn lemma_receive_reads_whole_frame<T: NoiseTransport>(
    pre: SessionInner<T>,
    post: SessionInner<T>,
    res: Result<Vec<u8>, String>,
    got: Seq<u8>,
    ct: Seq<u8>,
    rest: Seq<u8>,
    p: Seq<u8>,
)
    requires
        receive_contract(pre, post, res),
        !pre.is_closed(),
        ct.len() <= 65535,
        pre.recv_state().open(Seq::empty(), ct) == Some(p),
        post.received() == pre.received() + got,
        got.is_prefix_of(frame_bytes(ct) + rest),
    ensures
        (res matches Ok(v) && v@ == p && got == frame_bytes(ct) && post.recv_state() == pre.recv_state().next())
            || (res matches Err(e) && receive_failed_text(e@) && got.len() < ct.len() + 2
                && post.recv_state() == pre.recv_state()),
{
    crate::framing::lemma_frame_roundtrip(ct);
    match res {
        Ok(v) => {
            let ct2 = choose|ct2: Seq<u8>| ct2.len() <= 65535
                && #[trigger] pre.recv_state().open(Seq::empty(), ct2) == Some(v@)
                && post.received() == pre.received() + frame_bytes(ct2)
                && post.recv_state() == pre.recv_state().next();
            lemma_append_cancels(pre.received(), got, frame_bytes(ct2));
            crate::framing::lemma_leading_frame(ct2, ct, rest);
        },
        Err(e) => {
            if receive_failed_text(e@) && post.recv_state() == pre.recv_state()
                && exists|g: Seq<u8>| crate::framing::partial_frame(g) && post.received() == #[trigger] (pre.received() + g) {
                let g = choose|g: Seq<u8>| crate::framing::partial_frame(g) && post.received() == #[trigger] (pre.received() + g);
                lemma_append_cancels(pre.received(), got, g);
                if got.len() >= ct.len() + 2 {
                    assert(got.take(2) =~= frame_bytes(ct).take(2)) by {
                        assert(got.take(2) =~= (frame_bytes(ct) + rest).take(2));
                        assert((frame_bytes(ct) + rest).take(2) =~= frame_bytes(ct).take(2));
                    }
                }
            } else {
                let ct2 = choose|ct2: Seq<u8>| ct2.len() <= 65535
                    && #[trigger] pre.recv_state().open(Seq::empty(), ct2) is None
                    && post.received() == pre.received() + frame_bytes(ct2);
                lemma_append_cancels(pre.received(), got, frame_bytes(ct2));
                crate::framing::lemma_leading_frame(ct2, ct, rest);
            }
        },
    }
}

/// What a send hands to the transport, the peer's receive opens: when a
/// send of `payload` on an open session succeeds, and an open peer whose
/// incoming cipher is that session's outgoing cipher takes from its
/// transport a beginning of what the send handed over (followed by anything
/// else), the peer's receive returns `payload` and the two ciphers stay in
/// step — or it reports a failed read, having taken less than the frame.
pub proof fn lemma_send_then_receive<T: NoiseTransport, U: NoiseTransport>(
    a_pre: SessionInner<T>,
    a_post: SessionInner<T>,
    payload: Seq<u8>,
    b_pre: SessionInner<U>,
    b_post: SessionInner<U>,
    res: Result<Vec<u8>, String>,
    got: Seq<u8>,
    rest: Seq<u8>,
)
    requires
        send_contract(a_pre, a_post, payload, Ok(())),
        payload.len() <= MAX_PLAINTEXT_SIZE,
        !a_pre.is_closed(),
        receive_contract(b_pre, b_post, res),
        !b_pre.is_closed(),
        b_pre.recv_state() == a_pre.send_state(),
        b_post.received() == b_pre.received() + got,
        got.is_prefix_of(a_post.sent().skip(a_pre.sent().len() as int) + rest),
    ensures
        (res matches Ok(v) && v@ == payload && b_post.recv_state() == a_post.send_state())
            || (res matches Err(e) && receive_failed_text(e@) && got.len() < payload.len() + 18
                && b_post.recv_state() == b_pre.recv_state()),
{
    let ct = a_pre.send_state().seal(Seq::empty(), payload);
    assert(a_post.sent().skip(a_pre.sent().len() as int) =~= frame_bytes(ct));
    lemma_receive_reads_whole_frame(b_pre, b_post, res, got, ct, rest, payload);
}

} // verus!
