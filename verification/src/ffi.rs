//! The binding-facing API: keypair records, the transport callback
//! interface, error kinds, and XX / NK sessions over a caller's transport.
use vstd::prelude::*;
use vstd::std_specs::convert::FromSpecImpl;
use crate::bytes::{to_array32, to_vec};
use crate::keypair::{generate_keypair as core_generate_keypair, is_clamped, spec_x25519_public, Keypair};
use crate::session_nk::{
    accept as core_accept_nk, dial as core_dial_nk, nk_accept_error, nk_accept_outcome, nk_dial_error, nk_dial_outcome,
    Session as CoreSessionNk,
};
use crate::session_xx::{
    accept as core_accept_xx, dial as core_dial_xx, xx_accept_error, xx_accept_outcome, xx_dial_error, xx_dial_outcome,
    Session as CoreSessionXx,
};
use crate::session::{payload_exceeds_text, session_closed_text};
use crate::text::{contains_text, decimal, decimal_string, has_substring};

verus! {

// ── Error ────────────────────────────────────────────────────────────────────

/// The error kinds reported to binding callers.
#[derive(Debug)]
pub enum NoiseError {
    Transport { message: String },
    Handshake { message: String },
    Closed {},
    PayloadTooLarge {},
}

impl NoiseError {
    /// The text this error displays.
    pub open spec fn display(&self) -> Seq<char> {
        match self {
            NoiseError::Transport { message } => "noise: transport error: "@ + message@,
            NoiseError::Handshake { message } => "noise: handshake failed: "@ + message@,
            NoiseError::Closed {} => "noise: session is closed"@,
            NoiseError::PayloadTooLarge {} => "noise: payload too large"@,
        }
    }

    /// Renders the error as text.
    pub fn to_string(&self) -> (s: String)
        ensures
            s@ == self.display(),
    {
        match self {
            NoiseError::Transport { message } => String::from_str("noise: transport error: ").concat(message.as_str()),
            NoiseError::Handshake { message } => String::from_str("noise: handshake failed: ").concat(message.as_str()),
            NoiseError::Closed {} => String::from_str("noise: session is closed"),
            NoiseError::PayloadTooLarge {} => String::from_str("noise: payload too large"),
        }
    }
}

/// The error kind of an error text: "closed" marks a closed session,
/// "payload exceeds" an oversize payload, "handshake", "decrypt" or
/// "authenticate" a failed handshake or decryption; anything else is a
/// transport failure. The text is kept as the message.
pub open spec fn classify(s: String) -> NoiseError {
    if has_substring(s@, "closed"@) {
        NoiseError::Closed {}
    } else if has_substring(s@, "payload exceeds"@) {
        NoiseError::PayloadTooLarge {}
    } else if has_substring(s@, "handshake"@) || has_substring(s@, "decrypt"@)
        || has_substring(s@, "authenticate"@) {
        NoiseError::Handshake { message: s }
    } else {
        NoiseError::Transport { message: s }
    }
}

/// The text of an operation on a closed session is classified as closed.
proof fn lemma_closed_text_is_closed()
    ensures
        has_substring(session_closed_text(), "closed"@),
{
    reveal_strlit("noise: session is closed");
    reveal_strlit("closed");
    assert(session_closed_text().subrange(18int, 18int + "closed"@.len()) =~= "closed"@);
}

/// The text of an oversize payload is classified as payload too large: it
/// holds "payload exceeds" and not "closed" (its only 'l' follows a 'y').
proof fn lemma_payload_text_is_too_large(n: nat)
    ensures
        has_substring(payload_exceeds_text(n), "payload exceeds"@),
        !has_substring(payload_exceeds_text(n), "closed"@),
{
    let p = "noise: payload exceeds maximum message size ("@;
    let d = decimal(n);
    let q = " > 65519)"@;
    let t = payload_exceeds_text(n);
    reveal_strlit("noise: payload exceeds maximum message size (");
    reveal_strlit(" > 65519)");
    reveal_strlit("payload exceeds");
    reveal_strlit("closed");
    assert(t =~= p + d + q);
    assert(t.subrange(7int, 7int + "payload exceeds"@.len()) =~= "payload exceeds"@);
    crate::text::lemma_decimal_is_digits(n);
    assert forall|j: int| 0 <= j < t.len() && t[j] == 'l' implies j == 10 by {
        if j < 45 {
            assert(t[j] == p[j]);
        } else if j < 45 + d.len() {
            assert(t[j] == d[j - 45]);
        } else {
            assert(t[j] == q[j - 45 - d.len()]);
        }
    }
    if has_substring(t, "closed"@) {
        let i = choose|i: int| 0 <= i && i + 6 <= t.len() && #[trigger] t.subrange(i, i + 6) == "closed"@;
        assert(t.subrange(i, i + 6)[1] == 'l');
        assert(t[i + 1] == 'l');
        assert(t.subrange(i, i + 6)[0] == 'c');
        assert(t[9] == 'y');
    }
}

impl From<String> for NoiseError {
    fn from(s: String) -> (e: Self) {
        if contains_text(s.as_str(), "closed") {
            NoiseError::Closed {}
        } else if contains_text(s.as_str(), "payload exceeds") {
            NoiseError::PayloadTooLarge {}
        } else if contains_text(s.as_str(), "handshake") || contains_text(s.as_str(), "decrypt")
            || contains_text(s.as_str(), "authenticate") {
            NoiseError::Handshake { message: s }
        } else {
            NoiseError::Transport { message: s }
        }
    }
}

impl FromSpecImpl<String> for NoiseError {
    open spec fn obeys_from_spec() -> bool {
        true
    }

    open spec fn from_spec(s: String) -> NoiseError {
        classify(s)
    }
}

// ── NoiseTransport callback ───────────────────────────────────────────────────

/// Callback interface — implemented by the caller (in Swift / Kotlin through
/// the bindings, or in Rust). `read` returns up to `count` bytes (an empty
/// result means the connection is closed); `write` sends all of `data`.
pub trait NoiseTransport {
    fn read(&self, count: u64) -> Result<Vec<u8>, NoiseError>;

    fn write(&self, data: Vec<u8>) -> Result<(), NoiseError>;
}

/// `res` is `core` with its error text turned into an error kind.
pub open spec fn reports<A>(inner_res: Result<A, String>, res: Result<A, NoiseError>) -> bool {
    match inner_res {
        Ok(a) => res == Ok::<A, NoiseError>(a),
        Err(s) => res == Err::<A, NoiseError>(classify(s)),
    }
}

/// Turns an error text into an error kind.
fn report<A>(inner_res: Result<A, String>) -> (res: Result<A, NoiseError>)
    ensures
        reports(inner_res, res),
{
    match inner_res {
        Ok(a) => Ok(a),
        Err(s) => Err(NoiseError::from(s)),
    }
}

// ── KeypairRecord ─────────────────────────────────────────────────────────────

/// Plain-data record — maps to UDL `dictionary KeypairRecord`.
pub struct KeypairRecord {
    pub public_key: Vec<u8>,
    pub private_key: Vec<u8>,
}

impl KeypairRecord {
    /// The keypair made of the first 32 bytes of each key.
    pub fn to_keypair(&self) -> (kp: Keypair)
        requires
            self.private_key@.len() >= 32,
            self.public_key@.len() >= 32,
        ensures
            kp.private_spec() == self.private_key@.take(32),
            kp.public_spec() == self.public_key@.take(32),
    {
        let priv_arr = to_array32(crate::bytes::slice_range(self.private_key.as_slice(), 0, 32).as_slice());
        let pub_arr = to_array32(crate::bytes::slice_range(self.public_key.as_slice(), 0, 32).as_slice());
        Keypair::new(priv_arr, pub_arr)
    }
}

/// Generates a fresh clamped X25519 keypair as a record.
pub fn generate_keypair() -> (rec: KeypairRecord)
    ensures
        rec.private_key@.len() == 32,
        rec.public_key@.len() == 32,
        is_clamped(rec.private_key@),
        rec.public_key@ == spec_x25519_public(rec.private_key@),
{
    let kp = core_generate_keypair();
    let public_key = kp.public();
    let private_key = kp.private();
    KeypairRecord { public_key: to_vec(&public_key), private_key: to_vec(&private_key) }
}

/// A record holding copies of the given key bytes.
pub fn new_keypair(private_key: &[u8], public_key: &[u8]) -> (rec: KeypairRecord)
    ensures
        rec.private_key@ == private_key@,
        rec.public_key@ == public_key@,
{
    KeypairRecord { public_key: to_vec(public_key), private_key: to_vec(private_key) }
}

// ── SessionXx ─────────────────────────────────────────────────────────────────

/// Binding-visible XX session. Maps to UDL `interface SessionXx`.
pub struct SessionXx<T: NoiseTransport> {
    inner: CoreSessionXx<T>,
}

impl<T: NoiseTransport> SessionXx<T> {
    /// The underlying session.
    pub closed spec fn session(&self) -> CoreSessionXx<T> {
        self.inner
    }

    /// Sends a payload; errors are reported by kind.
    pub fn send(&mut self, payload: &[u8]) -> (res: Result<(), NoiseError>)
        requires
            payload@.len() <= crate::framing::MAX_PLAINTEXT_SIZE && !old(self).session().is_closed()
                ==> old(self).session().send_state().can_advance(),
        ensures
            exists|inner_res: Result<(), String>| #![trigger reports(inner_res, res)]
                crate::session::send_contract(old(self).session().inner_spec(), final(self).session().inner_spec(), payload@, inner_res)
                && reports(inner_res, res),
            payload@.len() > crate::framing::MAX_PLAINTEXT_SIZE ==> res == Err::<(), NoiseError>(NoiseError::PayloadTooLarge {})
                && final(self).session().inner_spec() == old(self).session().inner_spec(),
            payload@.len() <= crate::framing::MAX_PLAINTEXT_SIZE && old(self).session().is_closed()
                ==> res == Err::<(), NoiseError>(NoiseError::Closed {})
                && final(self).session().inner_spec() == old(self).session().inner_spec(),
            final(self).session().remote_key() == old(self).session().remote_key(),
    {
        proof {
            lemma_closed_text_is_closed();
            lemma_payload_text_is_too_large(payload@.len());
        }
        let inner_res = self.inner.send(payload);
        report(inner_res)
    }

    /// Receives one message; errors are reported by kind.
    pub fn receive(&mut self) -> (res: Result<Vec<u8>, NoiseError>)
        requires
            !old(self).session().is_closed() ==> old(self).session().recv_state().can_advance(),
        ensures
            exists|inner_res: Result<Vec<u8>, String>| #![trigger reports(inner_res, res)]
                crate::session::receive_contract(old(self).session().inner_spec(), final(self).session().inner_spec(), inner_res)
                && reports(inner_res, res),
            old(self).session().is_closed() ==> res == Err::<Vec<u8>, NoiseError>(NoiseError::Closed {})
                && final(self).session().inner_spec() == old(self).session().inner_spec(),
            final(self).session().remote_key() == old(self).session().remote_key(),
    {
        proof {
            lemma_closed_text_is_closed();
        }
        let inner_res = self.inner.receive();
        report(inner_res)
    }

    /// Returns the authenticated static public key of the remote peer.
    /// Always present — mutual authentication is guaranteed by XX.
    pub fn remote_public_key(&self) -> (k: Vec<u8>)
        ensures
            k@ == self.session().remote_key(),
    {
        let k = self.inner.remote_public_key();
        to_vec(&k)
    }

    /// The frame that `send` writes for payload, to be written with
    /// `write_message`; errors are reported by kind.
    pub fn seal_frame(&mut self, payload: &[u8]) -> (res: Result<Vec<u8>, NoiseError>)
        requires
            payload@.len() <= crate::framing::MAX_PLAINTEXT_SIZE && !old(self).session().is_closed()
                ==> old(self).session().send_state().can_advance(),
        ensures
            final(self).session().remote_key() == old(self).session().remote_key(),
            exists|inner_res: Result<Vec<u8>, String>| #![trigger reports(inner_res, res)]
                crate::session::seal_contract(old(self).session().inner_spec(), final(self).session().inner_spec(), payload@, inner_res)
                && reports(inner_res, res),
            payload@.len() > crate::framing::MAX_PLAINTEXT_SIZE ==> res == Err::<Vec<u8>, NoiseError>(NoiseError::PayloadTooLarge {})
                && final(self).session().inner_spec() == old(self).session().inner_spec(),
            payload@.len() <= crate::framing::MAX_PLAINTEXT_SIZE && old(self).session().is_closed()
                ==> res == Err::<Vec<u8>, NoiseError>(NoiseError::Closed {})
                && final(self).session().inner_spec() == old(self).session().inner_spec(),
    {
        proof {
            lemma_closed_text_is_closed();
            lemma_payload_text_is_too_large(payload@.len());
        }
        let inner_res = self.inner.seal_frame(payload);
        report(inner_res)
    }

    /// Decrypts the body of a frame received for this session (see
    /// `read_message`); errors are reported by kind.
    pub fn open_message(&mut self, ciphertext: &[u8]) -> (res: Result<Vec<u8>, NoiseError>)
        requires
            !old(self).session().is_closed() ==> old(self).session().recv_state().can_advance(),
        ensures
            final(self).session().remote_key() == old(self).session().remote_key(),
            old(self).session().is_closed() ==> res == Err::<Vec<u8>, NoiseError>(NoiseError::Closed {})
                && final(self).session().inner_spec() == old(self).session().inner_spec(),
            !old(self).session().is_closed() ==> exists|inner_res: Result<Vec<u8>, String>| #![trigger reports(inner_res, res)]
                crate::session::open_contract(old(self).session().inner_spec(), final(self).session().inner_spec(), ciphertext@, inner_res)
                && reports(inner_res, res),
    {
        proof {
            lemma_closed_text_is_closed();
        }
        let inner_res = self.inner.open_message(ciphertext);
        report(inner_res)
    }

    /// Whether the session has been closed.
    pub fn closed(&self) -> (b: bool)
        ensures
            b == self.session().is_closed(),
    {
        self.inner.closed()
    }

    /// The nonce counter of the outgoing cipher.
    pub fn send_nonce(&self) -> (n: u64)
        ensures
            n == self.session().send_state().n,
    {
        self.inner.send_nonce()
    }

    /// The nonce counter of the incoming cipher.
    pub fn receive_nonce(&self) -> (n: u64)
        ensures
            n == self.session().recv_state().n,
    {
        self.inner.receive_nonce()
    }

    /// Closes the session.
    pub fn close(&mut self) -> (res: Result<(), NoiseError>)
        ensures
            res is Ok,
            final(self).session().is_closed(),
            final(self).session().send_state() == old(self).session().send_state(),
            final(self).session().recv_state() == old(self).session().recv_state(),
            final(self).session().remote_key() == old(self).session().remote_key(),
    {
        let r = self.inner.close();
        match r {
            Ok(()) => Ok(()),
            Err(e) => Err(NoiseError::Transport { message: e }),
        }
    }
}

// ── SessionNk ─────────────────────────────────────────────────────────────────

/// Binding-visible NK session. Maps to UDL `interface SessionNk`.
/// No remote_public_key() — initiator is anonymous, responder has no remote static.
pub struct SessionNk<T: NoiseTransport> {
    inner: CoreSessionNk<T>,
}

impl<T: NoiseTransport> SessionNk<T> {
    /// The underlying session.
    pub closed spec fn session(&self) -> CoreSessionNk<T> {
        self.inner
    }

    /// Sends a payload; errors are reported by kind.
    pub fn send(&mut self, payload: &[u8]) -> (res: Result<(), NoiseError>)
        requires
            payload@.len() <= crate::framing::MAX_PLAINTEXT_SIZE && !old(self).session().is_closed()
                ==> old(self).session().send_state().can_advance(),
        ensures
            exists|inner_res: Result<(), String>| #![trigger reports(inner_res, res)]
                crate::session::send_contract(old(self).session().inner_spec(), final(self).session().inner_spec(), payload@, inner_res)
                && reports(inner_res, res),
            payload@.len() > crate::framing::MAX_PLAINTEXT_SIZE ==> res == Err::<(), NoiseError>(NoiseError::PayloadTooLarge {})
                && final(self).session().inner_spec() == old(self).session().inner_spec(),
            payload@.len() <= crate::framing::MAX_PLAINTEXT_SIZE && old(self).session().is_closed()
                ==> res == Err::<(), NoiseError>(NoiseError::Closed {})
                && final(self).session().inner_spec() == old(self).session().inner_spec(),
    {
        proof {
            lemma_closed_text_is_closed();
            lemma_payload_text_is_too_large(payload@.len());
        }
        let inner_res = self.inner.send(payload);
        report(inner_res)
    }

    /// Receives one message; errors are reported by kind.
    pub fn receive(&mut self) -> (res: Result<Vec<u8>, NoiseError>)
        requires
            !old(self).session().is_closed() ==> old(self).session().recv_state().can_advance(),
        ensures
            exists|inner_res: Result<Vec<u8>, String>| #![trigger reports(inner_res, res)]
                crate::session::receive_contract(old(self).session().inner_spec(), final(self).session().inner_spec(), inner_res)
                && reports(inner_res, res),
            old(self).session().is_closed() ==> res == Err::<Vec<u8>, NoiseError>(NoiseError::Closed {})
                && final(self).session().inner_spec() == old(self).session().inner_spec(),
    {
        proof {
            lemma_closed_text_is_closed();
        }
        let inner_res = self.inner.receive();
        report(inner_res)
    }

    /// The frame that `send` writes for payload, to be written with
    /// `write_message`; errors are reported by kind.
    pub fn seal_frame(&mut self, payload: &[u8]) -> (res: Result<Vec<u8>, NoiseError>)
        requires
            payload@.len() <= crate::framing::MAX_PLAINTEXT_SIZE && !old(self).session().is_closed()
                ==> old(self).session().send_state().can_advance(),
        ensures
            exists|inner_res: Result<Vec<u8>, String>| #![trigger reports(inner_res, res)]
                crate::session::seal_contract(old(self).session().inner_spec(), final(self).session().inner_spec(), payload@, inner_res)
                && reports(inner_res, res),
            payload@.len() > crate::framing::MAX_PLAINTEXT_SIZE ==> res == Err::<Vec<u8>, NoiseError>(NoiseError::PayloadTooLarge {})
                && final(self).session().inner_spec() == old(self).session().inner_spec(),
            payload@.len() <= crate::framing::MAX_PLAINTEXT_SIZE && old(self).session().is_closed()
                ==> res == Err::<Vec<u8>, NoiseError>(NoiseError::Closed {})
                && final(self).session().inner_spec() == old(self).session().inner_spec(),
    {
        proof {
            lemma_closed_text_is_closed();
            lemma_payload_text_is_too_large(payload@.len());
        }
        let inner_res = self.inner.seal_frame(payload);
        report(inner_res)
    }

    /// Decrypts the body of a frame received for this session (see
    /// `read_message`); errors are reported by kind.
    pub fn open_message(&mut self, ciphertext: &[u8]) -> (res: Result<Vec<u8>, NoiseError>)
        requires
            !old(self).session().is_closed() ==> old(self).session().recv_state().can_advance(),
        ensures
            old(self).session().is_closed() ==> res == Err::<Vec<u8>, NoiseError>(NoiseError::Closed {})
                && final(self).session().inner_spec() == old(self).session().inner_spec(),
            !old(self).session().is_closed() ==> exists|inner_res: Result<Vec<u8>, String>| #![trigger reports(inner_res, res)]
                crate::session::open_contract(old(self).session().inner_spec(), final(self).session().inner_spec(), ciphertext@, inner_res)
                && reports(inner_res, res),
    {
        proof {
            lemma_closed_text_is_closed();
        }
        let inner_res = self.inner.open_message(ciphertext);
        report(inner_res)
    }

    /// Whether the session has been closed.
    pub fn closed(&self) -> (b: bool)
        ensures
            b == self.session().is_closed(),
    {
        self.inner.closed()
    }

    /// The nonce counter of the outgoing cipher.
    pub fn send_nonce(&self) -> (n: u64)
        ensures
            n == self.session().send_state().n,
    {
        self.inner.send_nonce()
    }

    /// The nonce counter of the incoming cipher.
    pub fn receive_nonce(&self) -> (n: u64)
        ensures
            n == self.session().recv_state().n,
    {
        self.inner.receive_nonce()
    }

    /// Closes the session.
    pub fn close(&mut self) -> (res: Result<(), NoiseError>)
        ensures
            res is Ok,
            final(self).session().is_closed(),
            final(self).session().send_state() == old(self).session().send_state(),
            final(self).session().recv_state() == old(self).session().recv_state(),
    {
        let r = self.inner.close();
        match r {
            Ok(()) => Ok(()),
            Err(e) => Err(NoiseError::Transport { message: e }),
        }
    }
}

/// Writes a frame that `seal_frame` gave to a transport; errors are
/// reported by kind.
pub fn write_message<T: NoiseTransport>(transport: &T, frame: Vec<u8>) -> (res: Result<(), NoiseError>)
    ensures
        exists|inner_res: Result<(), String>| #![trigger reports(inner_res, res)]
            reports(inner_res, res) && (inner_res matches Err(e) ==> crate::session::send_failed_text(e@)),
{
    report(crate::session::write_message(transport, frame))
}

/// Reads the next frame of a session's incoming traffic from a transport
/// and returns its body, for `open_message`; errors are reported by kind.
pub fn read_message<T: NoiseTransport>(transport: &T) -> (res: Result<Vec<u8>, NoiseError>)
    ensures
        exists|inner_res: Result<Vec<u8>, String>| #![trigger reports(inner_res, res)]
            reports(inner_res, res) && match inner_res {
                Ok(body) => body@.len() <= crate::framing::MAX_FRAME_SIZE,
                Err(e) => crate::session::receive_failed_text(e@),
            },
{
    report(crate::session::read_message(transport))
}

// ── dial_xx / accept_xx ───────────────────────────────────────────────────────

/// XX handshake as the Initiator over a caller's transport.
pub fn dial_xx<T: NoiseTransport>(transport: T, keypair: KeypairRecord) -> (res: Result<SessionXx<T>, NoiseError>)
    requires
        keypair.private_key@.len() >= 32,
        keypair.public_key@.len() >= 32,
    ensures
        res matches Ok(s) ==> exists|e_priv: Seq<u8>, m1: Seq<u8>| {
            &&& is_clamped(e_priv)
            &&& #[trigger] xx_dial_outcome(keypair.private_key@.take(32), keypair.public_key@.take(32), e_priv, m1) matches Some(o)
            &&& s.session().send_state() == o.from_initiator
            &&& s.session().recv_state() == o.from_responder
            &&& s.session().remote_key() == o.remote_static
            &&& !s.session().is_closed()
            &&& m1.len() <= 65535 && s.session().received() == crate::framing::frame_bytes(m1)
        },
        res matches Err(e) ==> exists|t: String| xx_dial_error(t@) && e == #[trigger] classify(t),
{
    match core_dial_xx(transport, keypair.to_keypair()) {
        Ok(sess) => Ok(SessionXx { inner: sess }),
        Err(t) => Err(NoiseError::from(t)),
    }
}

/// XX handshake as the Responder over a caller's transport.
pub fn accept_xx<T: NoiseTransport>(transport: T, keypair: KeypairRecord) -> (res: Result<SessionXx<T>, NoiseError>)
    requires
        keypair.private_key@.len() >= 32,
        keypair.public_key@.len() >= 32,
    ensures
        res matches Ok(s) ==> exists|e_priv: Seq<u8>, m0: Seq<u8>, m2: Seq<u8>| {
            &&& is_clamped(e_priv)
            &&& #[trigger] xx_accept_outcome(keypair.private_key@.take(32), keypair.public_key@.take(32), e_priv, m0, m2) matches Some(o)
            &&& s.session().send_state() == o.from_responder
            &&& s.session().recv_state() == o.from_initiator
            &&& s.session().remote_key() == o.remote_static
            &&& !s.session().is_closed()
            &&& m0.len() <= 65535 && m2.len() <= 65535
            &&& s.session().received() == crate::framing::frame_bytes(m0) + crate::framing::frame_bytes(m2)
        },
        res matches Err(e) ==> exists|t: String| xx_accept_error(t@) && e == #[trigger] classify(t),
{
    match core_accept_xx(transport, keypair.to_keypair()) {
        Ok(sess) => Ok(SessionXx { inner: sess }),
        Err(t) => Err(NoiseError::from(t)),
    }
}

// ── dial_nk / accept_nk ───────────────────────────────────────────────────────

/// Error text of a responder key that is not 32 bytes long.
pub open spec fn bad_remote_static_text(len: nat) -> Seq<char> {
    "noise: remote_static must be 32 bytes, got "@ + decimal(len)
}

/// NK handshake as the Initiator, knowing the responder's static key.
/// A key that is not 32 bytes long is refused before any I/O.
pub fn dial_nk<T: NoiseTransport>(transport: T, keypair: KeypairRecord, remote_static: Vec<u8>) -> (res: Result<SessionNk<T>, NoiseError>)
    requires
        remote_static@.len() == 32 ==> keypair.private_key@.len() >= 32 && keypair.public_key@.len() >= 32,
    ensures
        remote_static@.len() != 32 ==> (res matches Err(NoiseError::Transport { message })
            && message@ == bad_remote_static_text(remote_static@.len())),
        res matches Ok(s) ==> remote_static@.len() == 32 && exists|e_priv: Seq<u8>, m1: Seq<u8>| {
            &&& is_clamped(e_priv)
            &&& #[trigger] nk_dial_outcome(keypair.private_key@.take(32), keypair.public_key@.take(32), e_priv, remote_static@, m1) matches Some(o)
            &&& s.session().send_state() == o.from_initiator
            &&& s.session().recv_state() == o.from_responder
            &&& !s.session().is_closed()
            &&& m1.len() <= 65535 && s.session().received() == crate::framing::frame_bytes(m1)
        },
        remote_static@.len() == 32 ==> (res matches Err(e) ==> exists|t: String| nk_dial_error(t@) && e == #[trigger] classify(t)),
{
    if remote_static.len() != 32 {
        let message = String::from_str("noise: remote_static must be 32 bytes, got ")
            .concat(decimal_string(remote_static.len()).as_str());
        return Err(NoiseError::Transport { message });
    }
    let rs = to_array32(remote_static.as_slice());
    match core_dial_nk(transport, keypair.to_keypair(), rs) {
        Ok(sess) => Ok(SessionNk { inner: sess }),
        Err(t) => Err(NoiseError::from(t)),
    }
}

/// NK handshake as the Responder over a caller's transport.
pub fn accept_nk<T: NoiseTransport>(transport: T, keypair: KeypairRecord) -> (res: Result<SessionNk<T>, NoiseError>)
    requires
        keypair.private_key@.len() >= 32,
        keypair.public_key@.len() >= 32,
    ensures
        res matches Ok(s) ==> exists|e_priv: Seq<u8>, m0: Seq<u8>| {
            &&& is_clamped(e_priv)
            &&& #[trigger] nk_accept_outcome(keypair.private_key@.take(32), keypair.public_key@.take(32), e_priv, m0) matches Some(o)
            &&& s.session().send_state() == o.from_responder
            &&& s.session().recv_state() == o.from_initiator
            &&& !s.session().is_closed()
            &&& m0.len() <= 65535 && s.session().received() == crate::framing::frame_bytes(m0)
        },
        res matches Err(e) ==> exists|t: String| nk_accept_error(t@) && e == #[trigger] classify(t),
{
    match core_accept_nk(transport, keypair.to_keypair()) {
        Ok(sess) => Ok(SessionNk { inner: sess }),
        Err(t) => Err(NoiseError::from(t)),
    }
}

} // verus!
