//! Noise handshake states for the XX and NK patterns.
//!
//! XX:  -> e  /  <- e, ee, s, es  /  -> s, se
//! NK:  <- s (known in advance)  /  -> e, es  /  <- e, ee
//!
//! Each message method computes the bytes to send, or consumes received
//! bytes, and updates the state exactly as the Noise specification's
//! HandshakeState does; framing and I/O belong to the session drivers.
use vstd::prelude::*;
use vstd::string::StringSliceAdditionalSpecFns;
use crate::bytes::{concat, slice_range, to_array32};
use crate::cipher::{sealable_len, CipherModel, CipherState};
use crate::keypair::{dh, generate_keypair, spec_x25519, spec_x25519_public, Keypair};
use crate::symmetric::{sym_decrypt_error_text, SymModel, SymmetricState};
use crate::text::{decimal, decimal_string};

verus! {

/// Protocol name of the XX pattern.
pub open spec fn xx_protocol_name() -> Seq<u8> {
    "Noise_XX_25519_ChaChaPoly_BLAKE2s".spec_bytes()
}

/// Protocol name of the NK pattern.
pub open spec fn nk_protocol_name() -> Seq<u8> {
    "Noise_NK_25519_ChaChaPoly_BLAKE2s".spec_bytes()
}

/// Error text of an XX first message shorter than an ephemeral key.
pub open spec fn msg0_too_short_text(len: nat) -> Seq<char> {
    "noise: msg0 too short: got "@ + decimal(len) + " bytes"@
}

/// Error text of an XX first message whose payload does not authenticate.
pub open spec fn msg0_payload_text() -> Seq<char> {
    "noise: msg0 payload: "@ + sym_decrypt_error_text()
}

/// Error text of an XX second message shorter than an ephemeral key.
pub open spec fn msg1_too_short_text() -> Seq<char> {
    "noise: msg1 too short"@
}

/// Error text of an XX second message without room for the encrypted static key.
pub open spec fn msg1_missing_static_text() -> Seq<char> {
    "noise: msg1 missing encrypted static key"@
}

/// Error text of an XX third message without room for the encrypted static key.
pub open spec fn msg2_missing_static_text() -> Seq<char> {
    "noise: msg2 missing encrypted static key"@
}

/// Error text of an NK first message too short for its ephemeral key.
pub open spec fn nk_msg0_input_text() -> Seq<char> {
    "noise: read msg0: Input"@
}

/// Error text of an NK first message whose payload does not authenticate.
pub open spec fn nk_msg0_decrypt_text() -> Seq<char> {
    "noise: read msg0: Decrypt"@
}

/// Error text of an NK second message too short for its ephemeral key.
pub open spec fn nk_msg1_input_text() -> Seq<char> {
    "noise: read msg1: Input"@
}

/// Error text of an NK second message whose payload does not authenticate.
pub open spec fn nk_msg1_decrypt_text() -> Seq<char> {
    "noise: read msg1: Decrypt"@
}

/// Abstract state of a handshake: the symmetric state, the local static
/// and ephemeral keypairs and the remote static and ephemeral public keys.
pub struct HsModel {
    pub ss: SymModel,
    pub s_priv: Seq<u8>,
    pub s_pub: Seq<u8>,
    pub e_priv: Seq<u8>,
    pub e_pub: Seq<u8>,
    pub rs: Seq<u8>,
    pub re: Seq<u8>,
}

/// The outcome of a completed handshake: the cipher for initiator-to-
/// responder traffic, the one for the opposite direction, the final
/// handshake hash and the remote static key.
pub struct HsOutcome {
    pub from_initiator: CipherModel,
    pub from_responder: CipherModel,
    pub hash: Seq<u8>,
    pub remote_static: Seq<u8>,
}

/// The first 32 bytes of a message.
pub open spec fn head32(msg: Seq<u8>) -> Seq<u8> {
    msg.subrange(0, 32)
}

/// A message after its first `n` bytes.
pub open spec fn tail_from(msg: Seq<u8>, n: int) -> Seq<u8> {
    msg.subrange(n, msg.len() as int)
}

impl HsModel {
    /// This state with another symmetric state.
    pub open spec fn with_ss(self, ss: SymModel) -> HsModel {
        HsModel { ss, ..self }
    }

    /// The outcome of splitting this state's symmetric state.
    pub open spec fn outcome(self) -> HsOutcome {
        HsOutcome {
            from_initiator: self.ss.split().0,
            from_responder: self.ss.split().1,
            hash: self.ss.h,
            remote_static: self.rs,
        }
    }

    /// XX initiator, first message: -> e [payload].
    pub open spec fn xx_write_msg0(self, payload: Seq<u8>) -> (HsModel, Seq<u8>) {
        let ss1 = self.ss.mix_hash(self.e_pub);
        let (ss2, ct) = ss1.encrypt_and_hash(payload);
        (self.with_ss(ss2), self.e_pub + ct)
    }

    /// XX responder, reading the first message.
    pub open spec fn xx_read_msg0(self, msg: Seq<u8>) -> (HsModel, Result<Seq<u8>, Seq<char>>) {
        if msg.len() < 32 {
            (self, Err(msg0_too_short_text(msg.len())))
        } else {
            let re = head32(msg);
            let ss1 = self.ss.mix_hash(re);
            let (ss2, pt) = ss1.decrypt_and_hash(tail_from(msg, 32));
            let next = HsModel { ss: ss2, re, ..self };
            match pt {
                Some(p) => (next, Ok(p)),
                None => (next, Err(msg0_payload_text())),
            }
        }
    }

    /// XX responder, second message: <- e, ee, s, es [payload].
    pub open spec fn xx_write_msg1(self, payload: Seq<u8>) -> (HsModel, Seq<u8>) {
        let ss1 = self.ss.mix_hash(self.e_pub).mix_key(spec_x25519(self.e_priv, self.re));
        let (ss2, enc_s) = ss1.encrypt_and_hash(self.s_pub);
        let ss3 = ss2.mix_key(spec_x25519(self.s_priv, self.re));
        let (ss4, enc_payload) = ss3.encrypt_and_hash(payload);
        (self.with_ss(ss4), self.e_pub + enc_s + enc_payload)
    }

    /// XX initiator, reading the second message.
    pub open spec fn xx_read_msg1(self, msg: Seq<u8>) -> (HsModel, Result<Seq<u8>, Seq<char>>) {
        if msg.len() < 32 {
            (self, Err(msg1_too_short_text()))
        } else {
            let re = head32(msg);
            let ss1 = self.ss.mix_hash(re).mix_key(spec_x25519(self.e_priv, re));
            let rest = tail_from(msg, 32);
            if rest.len() < 48 {
                (HsModel { ss: ss1, re, ..self }, Err(msg1_missing_static_text()))
            } else {
                let (ss2, rs) = ss1.decrypt_and_hash(rest.subrange(0, 48));
                match rs {
                    None => (HsModel { ss: ss2, re, ..self }, Err(sym_decrypt_error_text())),
                    Some(rs) => {
                        let ss3 = ss2.mix_key(spec_x25519(self.e_priv, rs));
                        let (ss4, pt) = ss3.decrypt_and_hash(tail_from(rest, 48));
                        let next = HsModel { ss: ss4, re, rs, ..self };
                        match pt {
                            Some(p) => (next, Ok(p)),
                            None => (next, Err(sym_decrypt_error_text())),
                        }
                    },
                }
            }
        }
    }

    /// XX initiator, third message: -> s, se [payload]; then the outcome.
    pub open spec fn xx_write_msg2(self, payload: Seq<u8>) -> (Seq<u8>, HsOutcome) {
        let (ss1, enc_s) = self.ss.encrypt_and_hash(self.s_pub);
        let ss2 = ss1.mix_key(spec_x25519(self.s_priv, self.re));
        let (ss3, enc_payload) = ss2.encrypt_and_hash(payload);
        (enc_s + enc_payload, self.with_ss(ss3).outcome())
    }

    /// XX responder, reading the third message; then the outcome and the
    /// payload.
    pub open spec fn xx_read_msg2(self, msg: Seq<u8>) -> Result<(HsOutcome, Seq<u8>), Seq<char>> {
        if msg.len() < 48 {
            Err(msg2_missing_static_text())
        } else {
            let (ss1, rs) = self.ss.decrypt_and_hash(msg.subrange(0, 48));
            match rs {
                None => Err(sym_decrypt_error_text()),
                Some(rs) => {
                    let ss2 = ss1.mix_key(spec_x25519(self.e_priv, rs));
                    let (ss3, pt) = ss2.decrypt_and_hash(tail_from(msg, 48));
                    match pt {
                        None => Err(sym_decrypt_error_text()),
                        Some(p) => Ok((HsModel { ss: ss3, rs, ..self }.outcome(), p)),
                    }
                },
            }
        }
    }

    /// NK initiator, first message: -> e, es [payload].
    pub open spec fn nk_write_msg0(self, payload: Seq<u8>) -> (HsModel, Seq<u8>) {
        let ss1 = self.ss.mix_hash(self.e_pub).mix_key(spec_x25519(self.e_priv, self.rs));
        let (ss2, ct) = ss1.encrypt_and_hash(payload);
        (self.with_ss(ss2), self.e_pub + ct)
    }

    /// NK responder, reading the first message.
    pub open spec fn nk_read_msg0(self, msg: Seq<u8>) -> (HsModel, Result<Seq<u8>, Seq<char>>) {
        if msg.len() < 32 {
            (self, Err(nk_msg0_input_text()))
        } else {
            let re = head32(msg);
            let ss1 = self.ss.mix_hash(re).mix_key(spec_x25519(self.s_priv, re));
            let (ss2, pt) = ss1.decrypt_and_hash(tail_from(msg, 32));
            let next = HsModel { ss: ss2, re, ..self };
            match pt {
                Some(p) => (next, Ok(p)),
                None => (next, Err(nk_msg0_decrypt_text())),
            }
        }
    }

    /// NK responder, second message: <- e, ee [payload]; then the outcome.
    pub open spec fn nk_write_msg1(self, payload: Seq<u8>) -> (Seq<u8>, HsOutcome) {
        let ss1 = self.ss.mix_hash(self.e_pub).mix_key(spec_x25519(self.e_priv, self.re));
        let (ss2, ct) = ss1.encrypt_and_hash(payload);
        (self.e_pub + ct, self.with_ss(ss2).outcome())
    }

    /// NK initiator, reading the second message; then the outcome and the
    /// payload.
    pub open spec fn nk_read_msg1(self, msg: Seq<u8>) -> Result<(HsOutcome, Seq<u8>), Seq<char>> {
        if msg.len() < 32 {
            Err(nk_msg1_input_text())
        } else {
            let re = head32(msg);
            let ss1 = self.ss.mix_hash(re).mix_key(spec_x25519(self.e_priv, re));
            let (ss2, pt) = ss1.decrypt_and_hash(tail_from(msg, 32));
            match pt {
                None => Err(nk_msg1_decrypt_text()),
                Some(p) => Ok((HsModel { ss: ss2, re, ..self }.outcome(), p)),
            }
        }
    }
}

/// The state of an XX handshake before its first message.
pub open spec fn xx_initial(s: (Seq<u8>, Seq<u8>), e: (Seq<u8>, Seq<u8>), prologue: Seq<u8>) -> HsModel {
    HsModel {
        ss: SymModel::init(xx_protocol_name()).mix_hash(prologue),
        s_priv: s.0,
        s_pub: s.1,
        e_priv: e.0,
        e_pub: e.1,
        rs: crate::symmetric::zeros(32),
        re: crate::symmetric::zeros(32),
    }
}

/// The state of an NK handshake before its first message: the initiator
/// (`remote` is the responder's known static key) mixes that key, the
/// responder mixes its own.
pub open spec fn nk_initial(
    s: (Seq<u8>, Seq<u8>),
    e: (Seq<u8>, Seq<u8>),
    prologue: Seq<u8>,
    remote: Option<Seq<u8>>,
) -> HsModel {
    let ss0 = SymModel::init(nk_protocol_name()).mix_hash(prologue);
    HsModel {
        ss: match remote {
            Some(rs) => ss0.mix_hash(rs),
            None => ss0.mix_hash(s.1),
        },
        s_priv: s.0,
        s_pub: s.1,
        e_priv: e.0,
        e_pub: e.1,
        rs: match remote {
            Some(rs) => rs,
            None => crate::symmetric::zeros(32),
        },
        re: crate::symmetric::zeros(32),
    }
}

/// HandshakeState implements the Noise XX and NK handshake patterns.
pub struct HandshakeState {
    pub ss: SymmetricState,
    s: Keypair,
    e: Keypair,
    rs: [u8; 32],
    re: [u8; 32],
}

impl View for HandshakeState {
    type V = HsModel;

    closed spec fn view(&self) -> HsModel {
        HsModel {
            ss: self.ss@,
            s_priv: self.s.private_spec(),
            s_pub: self.s.public_spec(),
            e_priv: self.e.private_spec(),
            e_pub: self.e.public_spec(),
            rs: self.rs@,
            re: self.re@,
        }
    }
}

/// The keypair (`private`, `public`) is a 32-byte private key with the
/// public key derived from it.
pub open spec fn derived(private: Seq<u8>, public: Seq<u8>) -> bool {
    private.len() == 32 && public == spec_x25519_public(private)
}

/// The first XX message `msg`, written by a state that was `w` and became
/// `w2`, is read with `payload` by every responder whose symmetric state was
/// the writer's, which then holds the writer's symmetric state and its
/// ephemeral key.
pub open spec fn xx_msg0_delivers(w: HsModel, w2: HsModel, msg: Seq<u8>, payload: Seq<u8>) -> bool {
    forall|r: HsModel| #![trigger r.xx_read_msg0(msg)]
        r.ss == w.ss ==> {
            &&& r.xx_read_msg0(msg).1 == Ok::<Seq<u8>, Seq<char>>(payload)
            &&& r.xx_read_msg0(msg).0.ss == w2.ss
            &&& r.xx_read_msg0(msg).0.re == w.e_pub
        }
}

/// The second XX message `msg`, written by a responder that was `w` and
/// became `w2` with derived keypairs, is read with `payload` by every
/// initiator whose symmetric state was the writer's and whose ephemeral
/// public key the writer received; the initiator then holds the writer's
/// symmetric state and learns its static and ephemeral keys.
pub open spec fn xx_msg1_delivers(w: HsModel, w2: HsModel, msg: Seq<u8>, payload: Seq<u8>) -> bool {
    derived(w.e_priv, w.e_pub) && derived(w.s_priv, w.s_pub) ==>
    forall|i: HsModel| #![trigger i.xx_read_msg1(msg)]
        i.ss == w.ss && derived(i.e_priv, w.re) ==> {
            &&& i.xx_read_msg1(msg).1 == Ok::<Seq<u8>, Seq<char>>(payload)
            &&& i.xx_read_msg1(msg).0.ss == w2.ss
            &&& i.xx_read_msg1(msg).0.rs == w.s_pub
            &&& i.xx_read_msg1(msg).0.re == w.e_pub
        }
}

/// The third XX message `msg`, written by an initiator that was `w` (with a
/// derived static keypair) and ended with outcome `o`, is read with
/// `payload` by every responder whose symmetric state was the writer's and
/// whose ephemeral public key the writer received; the responder ends with
/// the same ciphers and hash and learns the writer's static key.
pub open spec fn xx_msg2_delivers(w: HsModel, o: HsOutcome, msg: Seq<u8>, payload: Seq<u8>) -> bool {
    derived(w.s_priv, w.s_pub) ==>
    forall|r: HsModel| #![trigger r.xx_read_msg2(msg)]
        r.ss == w.ss && derived(r.e_priv, w.re) ==> {
            &&& r.xx_read_msg2(msg) matches Ok((ro, p))
            &&& p == payload
            &&& ro.from_initiator == o.from_initiator
            &&& ro.from_responder == o.from_responder
            &&& ro.hash == o.hash
            &&& ro.remote_static == w.s_pub
        }
}

/// The first NK message `msg`, written by an initiator that was `w` (with a
/// derived ephemeral keypair) and became `w2`, is read with `payload` by the
/// responder whose static public key the writer used and whose symmetric
/// state was the writer's; it then holds the writer's symmetric state and
/// ephemeral key.
pub open spec fn nk_msg0_delivers(w: HsModel, w2: HsModel, msg: Seq<u8>, payload: Seq<u8>) -> bool {
    derived(w.e_priv, w.e_pub) ==>
    forall|r: HsModel| #![trigger r.nk_read_msg0(msg)]
        r.ss == w.ss && derived(r.s_priv, w.rs) ==> {
            &&& r.nk_read_msg0(msg).1 == Ok::<Seq<u8>, Seq<char>>(payload)
            &&& r.nk_read_msg0(msg).0.ss == w2.ss
            &&& r.nk_read_msg0(msg).0.re == w.e_pub
        }
}

/// The second NK message `msg`, written by a responder that was `w` (with a
/// derived ephemeral keypair) and ended with outcome `o`, is read with
/// `payload` by every initiator whose symmetric state was the writer's and
/// whose ephemeral public key the writer received; it ends with the same
/// ciphers and hash.
pub open spec fn nk_msg1_delivers(w: HsModel, o: HsOutcome, msg: Seq<u8>, payload: Seq<u8>) -> bool {
    derived(w.e_priv, w.e_pub) ==>
    forall|i: HsModel| #![trigger i.nk_read_msg1(msg)]
        i.ss == w.ss && derived(i.e_priv, w.re) ==> {
            &&& i.nk_read_msg1(msg) matches Ok((io, p))
            &&& p == payload
            &&& io.from_initiator == o.from_initiator
            &&& io.from_responder == o.from_responder
            &&& io.hash == o.hash
        }
}

/// A new string holding `s`.
fn text(s: &str) -> (t: String)
    ensures
        t@ == s@,
{
    String::from_str(s)
}

impl HandshakeState {
    /// Production constructor for XX — generates a fresh ephemeral keypair.
    pub fn new(s: Keypair) -> (hs: Self)
        ensures
            hs@ == xx_initial((s.private_spec(), s.public_spec()), (hs@.e_priv, hs@.e_pub), Seq::empty()),
            crate::keypair::is_clamped(hs@.e_priv),
            hs@.e_pub == crate::keypair::spec_x25519_public(hs@.e_priv),
    {
        let e = generate_keypair();
        let empty: Vec<u8> = Vec::new();
        Self::new_fixed(s, e, empty.as_slice())
    }

    /// Deterministic XX constructor for spec vector tests — accepts fixed
    /// keys and prologue.
    pub fn new_fixed(s: Keypair, e: Keypair, prologue: &[u8]) -> (hs: Self)
        ensures
            hs@ == xx_initial((s.private_spec(), s.public_spec()), (e.private_spec(), e.public_spec()), prologue@),
    {
        let mut ss = SymmetricState::new("Noise_XX_25519_ChaChaPoly_BLAKE2s");
        ss.mix_hash(prologue);
        let hs = Self { ss, s, e, rs: [0u8; 32], re: [0u8; 32] };
        assert(hs@.rs =~= crate::symmetric::zeros(32));
        assert(hs@.re =~= crate::symmetric::zeros(32));
        hs
    }

    /// Production constructor for NK — generates a fresh ephemeral keypair.
    /// `remote_static` is the responder's static key for the initiator and
    /// `None` for the responder.
    pub fn new_nk(s: Keypair, remote_static: Option<[u8; 32]>) -> (hs: Self)
        ensures
            hs@ == nk_initial(
                (s.private_spec(), s.public_spec()),
                (hs@.e_priv, hs@.e_pub),
                Seq::empty(),
                match remote_static { Some(r) => Some(r@), None => None },
            ),
            crate::keypair::is_clamped(hs@.e_priv),
            hs@.e_pub == crate::keypair::spec_x25519_public(hs@.e_priv),
    {
        let e = generate_keypair();
        let empty: Vec<u8> = Vec::new();
        Self::new_nk_fixed(s, e, empty.as_slice(), remote_static)
    }

    /// Deterministic NK constructor — accepts fixed keys and prologue.
    pub fn new_nk_fixed(s: Keypair, e: Keypair, prologue: &[u8], remote_static: Option<[u8; 32]>) -> (hs: Self)
        ensures
            hs@ == nk_initial(
                (s.private_spec(), s.public_spec()),
                (e.private_spec(), e.public_spec()),
                prologue@,
                match remote_static { Some(r) => Some(r@), None => None },
            ),
    {
        let mut ss = SymmetricState::new("Noise_NK_25519_ChaChaPoly_BLAKE2s");
        ss.mix_hash(prologue);
        let rs = match remote_static {
            Some(r) => {
                ss.mix_hash(&r);
                r
            },
            None => {
                let s_pub = s.public();
                ss.mix_hash(&s_pub);
                [0u8; 32]
            },
        };
        let hs = Self { ss, s, e, rs, re: [0u8; 32] };
        assert(hs@.re =~= crate::symmetric::zeros(32));
        assert(remote_static is None ==> hs@.rs =~= crate::symmetric::zeros(32));
        hs
    }

    /// XX, sends: -> e [payload]. Returns the message.
    pub fn write_msg0(&mut self, payload: &[u8]) -> (msg: Vec<u8>)
        requires
            old(self)@.ss.can_encrypt(payload@.len()),
        ensures
            (final(self)@, msg@) == old(self)@.xx_write_msg0(payload@),
            msg@.len() == 32 + payload@.len() + (if old(self)@.ss.cipher is Some { 16int } else { 0int }),
            xx_msg0_delivers(old(self)@, final(self)@, msg@, payload@),
    {
        let e_pub = self.e.public();
        self.ss.mix_hash(&e_pub);
        let enc_payload = self.ss.encrypt_and_hash(payload);
        let msg = concat(&e_pub, enc_payload.as_slice());
        assert(head32(msg@) =~= e_pub@);
        assert(tail_from(msg@, 32) =~= enc_payload@);
        msg
    }

    /// XX, receives: -> e [payload].
    pub fn read_msg0(&mut self, msg: &[u8]) -> (res: Result<(), String>)
        requires
            old(self)@.ss.can_decrypt(),
        ensures
            final(self)@ == old(self)@.xx_read_msg0(msg@).0,
            match res {
                Ok(_) => old(self)@.xx_read_msg0(msg@).1 is Ok,
                Err(e) => old(self)@.xx_read_msg0(msg@).1 == Err::<Seq<u8>, Seq<char>>(e@),
            },
    {
        if msg.len() < 32 {
            let t = text("noise: msg0 too short: got ").concat(decimal_string(msg.len()).as_str());
            return Err(t.concat(" bytes"));
        }
        self.re = to_array32(slice_range(msg, 0, 32).as_slice());
        let re = self.re;
        self.ss.mix_hash(&re);
        match self.ss.decrypt_and_hash(slice_range(msg, 32, msg.len()).as_slice()) {
            Ok(_) => Ok(()),
            Err(e) => Err(text("noise: msg0 payload: ").concat(e.as_str())),
        }
    }

    /// XX, sends: <- e, ee, s, es [payload]. Returns the message.
    pub fn write_msg1(&mut self, payload: &[u8]) -> (msg: Vec<u8>)
        requires
            sealable_len(payload@.len()),
        ensures
            (final(self)@, msg@) == old(self)@.xx_write_msg1(payload@),
            msg@.len() == 32 + 48 + payload@.len() + 16,
            xx_msg1_delivers(old(self)@, final(self)@, msg@, payload@),
    {
        let ghost w = self@;
        let e_pub = self.e.public();
        self.ss.mix_hash(&e_pub);

        let ee_dh = dh(self.e.private(), self.re);
        self.ss.mix_key(&ee_dh);

        let s_pub = self.s.public();
        let enc_s = self.ss.encrypt_and_hash(&s_pub);

        // es: responder's static × initiator's ephemeral
        let es_dh = dh(self.s.private(), self.re);
        self.ss.mix_key(&es_dh);

        let enc_payload = self.ss.encrypt_and_hash(payload);

        let mut msg = concat(&e_pub, enc_s.as_slice());
        crate::bytes::append_bytes(&mut msg, enc_payload.as_slice());
        proof {
            let rest = tail_from(msg@, 32);
            assert(head32(msg@) =~= e_pub@);
            assert(rest.subrange(0, 48) =~= enc_s@);
            assert(tail_from(rest, 48) =~= enc_payload@);
            assert forall|i: HsModel| #![trigger i.xx_read_msg1(msg@)]
                derived(w.e_priv, w.e_pub) && derived(w.s_priv, w.s_pub) && i.ss == w.ss && derived(i.e_priv, w.re)
                implies {
                    &&& i.xx_read_msg1(msg@).1 == Ok::<Seq<u8>, Seq<char>>(payload@)
                    &&& i.xx_read_msg1(msg@).0.ss == self@.ss
                    &&& i.xx_read_msg1(msg@).0.rs == w.s_pub
                    &&& i.xx_read_msg1(msg@).0.re == w.e_pub
                } by {
                assert(ee_dh@ == spec_x25519(i.e_priv, w.e_pub));
                assert(es_dh@ == spec_x25519(i.e_priv, w.s_pub));
            }
        }
        msg
    }

    /// XX, receives: <- e, ee, s, es [payload].
    pub fn read_msg1(&mut self, msg: &[u8]) -> (res: Result<(), String>)
        ensures
            final(self)@ == old(self)@.xx_read_msg1(msg@).0,
            match res {
                Ok(_) => old(self)@.xx_read_msg1(msg@).1 is Ok,
                Err(e) => old(self)@.xx_read_msg1(msg@).1 == Err::<Seq<u8>, Seq<char>>(e@),
            },
    {
        if msg.len() < 32 {
            return Err(text("noise: msg1 too short"));
        }

        self.re = to_array32(slice_range(msg, 0, 32).as_slice());
        let re = self.re;
        self.ss.mix_hash(&re);
        let rest = slice_range(msg, 32, msg.len());

        // ee: initiator's ephemeral × responder's ephemeral
        let ee_dh = dh(self.e.private(), self.re);
        self.ss.mix_key(&ee_dh);

        // s: 32 bytes plaintext + 16 bytes tag
        if rest.len() < 48 {
            return Err(text("noise: msg1 missing encrypted static key"));
        }
        let rs_enc = slice_range(rest.as_slice(), 0, 48);
        let rest2 = slice_range(rest.as_slice(), 48, rest.len());
        let rs_bytes = match self.ss.decrypt_and_hash(rs_enc.as_slice()) {
            Ok(b) => b,
            Err(e) => return Err(e),
        };
        self.rs = to_array32(rs_bytes.as_slice());

        // es: initiator's ephemeral × responder's static
        let es_dh = dh(self.e.private(), self.rs);
        self.ss.mix_key(&es_dh);

        match self.ss.decrypt_and_hash(rest2.as_slice()) {
            Ok(_) => Ok(()),
            Err(e) => Err(e),
        }
    }

    /// XX, sends: -> s, se [payload].
    /// Returns (message, fromInitiator, fromResponder, handshake_hash, remote_static).
    pub fn write_msg2(self, payload: &[u8]) -> (res: (Vec<u8>, CipherState, CipherState, [u8; 32], [u8; 32]))
        requires
            self@.ss.can_encrypt(32),
            sealable_len(payload@.len()),
        ensures
            (res.0@, HsOutcome { from_initiator: res.1@, from_responder: res.2@, hash: res.3@, remote_static: res.4@ })
                == self@.xx_write_msg2(payload@),
            res.0@.len() == 32 + (if self@.ss.cipher is Some { 16int } else { 0int }) + payload@.len() + 16,
            self@.ss.cipher is Some ==> xx_msg2_delivers(self@, HsOutcome {
                from_initiator: res.1@, from_responder: res.2@, hash: res.3@, remote_static: res.4@,
            }, res.0@, payload@),
    {
        let ghost w = self@;
        let mut hs = self;
        let s_pub = hs.s.public();
        let enc_s = hs.ss.encrypt_and_hash(&s_pub);

        // se: initiator's static × responder's ephemeral
        let se_dh = dh(hs.s.private(), hs.re);
        hs.ss.mix_key(&se_dh);

        let enc_payload = hs.ss.encrypt_and_hash(payload);

        let msg = concat(enc_s.as_slice(), enc_payload.as_slice());
        proof {
            if w.ss.cipher is Some {
                assert(msg@.subrange(0, 48) =~= enc_s@);
                assert(tail_from(msg@, 48) =~= enc_payload@);
                assert forall|r: HsModel| #![trigger r.xx_read_msg2(msg@)]
                    derived(w.s_priv, w.s_pub) && r.ss == w.ss && derived(r.e_priv, w.re)
                    implies {
                        &&& r.xx_read_msg2(msg@) matches Ok((ro, p))
                        &&& p == payload@
                        &&& ro.from_initiator == hs.ss@.split().0
                        &&& ro.from_responder == hs.ss@.split().1
                        &&& ro.hash == hs.ss@.h
                        &&& ro.remote_static == w.s_pub
                    } by {
                    assert(se_dh@ == spec_x25519(r.e_priv, w.s_pub));
                }
            }
        }
        let hash = hs.ss.handshake_hash();
        let rs = hs.rs;
        let (fi, fr) = hs.ss.split();
        (msg, fi, fr, hash, rs)
    }

    /// XX, receives: -> s, se [payload].
    /// Returns (fromInitiator, fromResponder, handshake_hash, remote_static) on success.
    pub fn read_msg2(self, msg: &[u8]) -> (res: Result<(CipherState, CipherState, [u8; 32], [u8; 32]), String>)
        requires
            self@.ss.can_decrypt(),
            self@.ss.cipher is Some,
        ensures
            match res {
                Ok(r) => self@.xx_read_msg2(msg@) matches Ok((o, _)) && o == (HsOutcome {
                    from_initiator: r.0@, from_responder: r.1@, hash: r.2@, remote_static: r.3@,
                }),
                Err(e) => self@.xx_read_msg2(msg@) == Err::<(HsOutcome, Seq<u8>), Seq<char>>(e@),
            },
    {
        let mut hs = self;
        if msg.len() < 48 {
            return Err(text("noise: msg2 missing encrypted static key"));
        }
        let rs_enc = slice_range(msg, 0, 48);
        let rest = slice_range(msg, 48, msg.len());
        let rs_bytes = match hs.ss.decrypt_and_hash(rs_enc.as_slice()) {
            Ok(b) => b,
            Err(e) => return Err(e),
        };
        hs.rs = to_array32(rs_bytes.as_slice());

        // se: responder's ephemeral × initiator's static (= DH(e_R, s_I))
        let se_dh = dh(hs.e.private(), hs.rs);
        hs.ss.mix_key(&se_dh);

        match hs.ss.decrypt_and_hash(rest.as_slice()) {
            Ok(_) => {},
            Err(e) => return Err(e),
        }

        let hash = hs.ss.handshake_hash();
        let rs = hs.rs;
        let (fi, fr) = hs.ss.split();
        Ok((fi, fr, hash, rs))
    }

    /// The remote static public key learned so far.
    pub fn remote_static(&self) -> (rs: [u8; 32])
        ensures
            rs@ == self@.rs,
    {
        self.rs
    }

    /// NK initiator, sends: -> e, es [payload]. Returns the message.
    pub fn write_nk_msg0(&mut self, payload: &[u8]) -> (msg: Vec<u8>)
        requires
            sealable_len(payload@.len()),
        ensures
            (final(self)@, msg@) == old(self)@.nk_write_msg0(payload@),
            msg@.len() == 32 + payload@.len() + 16,
            nk_msg0_delivers(old(self)@, final(self)@, msg@, payload@),
    {
        let ghost w = self@;
        let e_pub = self.e.public();
        self.ss.mix_hash(&e_pub);
        let es_dh = dh(self.e.private(), self.rs);
        self.ss.mix_key(&es_dh);
        let enc_payload = self.ss.encrypt_and_hash(payload);
        let msg = concat(&e_pub, enc_payload.as_slice());
        proof {
            assert(head32(msg@) =~= e_pub@);
            assert(tail_from(msg@, 32) =~= enc_payload@);
            assert forall|r: HsModel| #![trigger r.nk_read_msg0(msg@)]
                derived(w.e_priv, w.e_pub) && r.ss == w.ss && derived(r.s_priv, w.rs)
                implies {
                    &&& r.nk_read_msg0(msg@).1 == Ok::<Seq<u8>, Seq<char>>(payload@)
                    &&& r.nk_read_msg0(msg@).0.ss == self@.ss
                    &&& r.nk_read_msg0(msg@).0.re == w.e_pub
                } by {
                assert(es_dh@ == spec_x25519(r.s_priv, w.e_pub));
            }
        }
        msg
    }

    /// NK responder, receives: -> e, es [payload].
    pub fn read_nk_msg0(&mut self, msg: &[u8]) -> (res: Result<(), String>)
        ensures
            final(self)@ == old(self)@.nk_read_msg0(msg@).0,
            match res {
                Ok(_) => old(self)@.nk_read_msg0(msg@).1 is Ok,
                Err(e) => old(self)@.nk_read_msg0(msg@).1 == Err::<Seq<u8>, Seq<char>>(e@),
            },
    {
        if msg.len() < 32 {
            return Err(text("noise: read msg0: Input"));
        }
        self.re = to_array32(slice_range(msg, 0, 32).as_slice());
        let re = self.re;
        self.ss.mix_hash(&re);
        let es_dh = dh(self.s.private(), self.re);
        self.ss.mix_key(&es_dh);
        match self.ss.decrypt_and_hash(slice_range(msg, 32, msg.len()).as_slice()) {
            Ok(_) => Ok(()),
            Err(_) => Err(text("noise: read msg0: Decrypt")),
        }
    }

    /// NK responder, sends: <- e, ee [payload].
    /// Returns (message, fromInitiator, fromResponder, handshake_hash).
    pub fn write_nk_msg1(self, payload: &[u8]) -> (res: (Vec<u8>, CipherState, CipherState, [u8; 32]))
        requires
            sealable_len(payload@.len()),
        ensures
            ({
                let (m, o) = self@.nk_write_msg1(payload@);
                &&& res.0@ == m
                &&& res.1@ == o.from_initiator
                &&& res.2@ == o.from_responder
                &&& res.3@ == o.hash
            }),
            res.0@.len() == 32 + payload@.len() + 16,
            nk_msg1_delivers(self@, self@.nk_write_msg1(payload@).1, res.0@, payload@),
    {
        let ghost w = self@;
        let mut hs = self;
        let e_pub = hs.e.public();
        hs.ss.mix_hash(&e_pub);
        let ee_dh = dh(hs.e.private(), hs.re);
        hs.ss.mix_key(&ee_dh);
        let enc_payload = hs.ss.encrypt_and_hash(payload);
        let msg = concat(&e_pub, enc_payload.as_slice());
        proof {
            assert(head32(msg@) =~= e_pub@);
            assert(tail_from(msg@, 32) =~= enc_payload@);
            assert forall|i: HsModel| #![trigger i.nk_read_msg1(msg@)]
                derived(w.e_priv, w.e_pub) && i.ss == w.ss && derived(i.e_priv, w.re)
                implies {
                    &&& i.nk_read_msg1(msg@) matches Ok((io, p))
                    &&& p == payload@
                    &&& io.from_initiator == hs.ss@.split().0
                    &&& io.from_responder == hs.ss@.split().1
                    &&& io.hash == hs.ss@.h
                } by {
                assert(ee_dh@ == spec_x25519(i.e_priv, w.e_pub));
            }
        }
        let hash = hs.ss.handshake_hash();
        let (fi, fr) = hs.ss.split();
        (msg, fi, fr, hash)
    }

    /// NK initiator, receives: <- e, ee [payload].
    /// Returns (fromInitiator, fromResponder, handshake_hash) on success.
    pub fn read_nk_msg1(self, msg: &[u8]) -> (res: Result<(CipherState, CipherState, [u8; 32]), String>)
        ensures
            match res {
                Ok(r) => self@.nk_read_msg1(msg@) matches Ok((o, _)) && r.0@ == o.from_initiator
                    && r.1@ == o.from_responder && r.2@ == o.hash,
                Err(e) => self@.nk_read_msg1(msg@) == Err::<(HsOutcome, Seq<u8>), Seq<char>>(e@),
            },
    {
        let mut hs = self;
        if msg.len() < 32 {
            return Err(text("noise: read msg1: Input"));
        }
        hs.re = to_array32(slice_range(msg, 0, 32).as_slice());
        let re = hs.re;
        hs.ss.mix_hash(&re);
        let ee_dh = dh(hs.e.private(), hs.re);
        hs.ss.mix_key(&ee_dh);
        match hs.ss.decrypt_and_hash(slice_range(msg, 32, msg.len()).as_slice()) {
            Ok(_) => {},
            Err(_) => return Err(text("noise: read msg1: Decrypt")),
        }
        let hash = hs.ss.handshake_hash();
        let (fi, fr) = hs.ss.split();
        Ok((fi, fr, hash))
    }
}

} // verus!

verus! {

/// ChaCha20-Poly1305 decrypts what it encrypted under the same key, nonce
/// and associated data, and appends a 16-byte tag.
pub open spec fn aead_is_correct() -> bool {
    forall|k: Seq<u8>, n: Seq<u8>, ad: Seq<u8>, p: Seq<u8>|
        #![trigger crate::cipher::spec_chacha_seal(k, n, ad, p)]
        crate::cipher::spec_chacha_open(k, n, ad, crate::cipher::spec_chacha_seal(k, n, ad, p)) == Some(p)
            && crate::cipher::spec_chacha_seal(k, n, ad, p).len() == p.len() + 16
}

/// Diffie-Hellman between keypairs `a` and `b` gives the same secret on
/// both sides.
pub open spec fn dh_agrees(a_priv: Seq<u8>, a_pub: Seq<u8>, b_priv: Seq<u8>, b_pub: Seq<u8>) -> bool {
    spec_x25519(a_priv, b_pub) == spec_x25519(b_priv, a_pub)
}

/// Decrypting under the same symmetric state what `encrypt_and_hash`
/// produced gives the plaintext back and the same next state.
pub proof fn lemma_sym_roundtrip(ss: SymModel, p: Seq<u8>)
    requires
        aead_is_correct(),
    ensures
        ss.decrypt_and_hash(ss.encrypt_and_hash(p).1) == (ss.encrypt_and_hash(p).0, Some(p)),
        ss.cipher is Some ==> ss.encrypt_and_hash(p).1.len() == p.len() + 16,
        ss.cipher is None ==> ss.encrypt_and_hash(p).1 == p,
        ss.encrypt_and_hash(p).0.cipher is Some == ss.cipher is Some,
{
    match ss.cipher {
        Some(c) => {
            let ct = crate::cipher::spec_chacha_seal(c.key, crate::cipher::nonce_bytes(c.n), ss.h, p);
            assert(c.seal(ss.h, p) == ct);
        },
        None => {},
    }
}

/// Honest XX handshake: when the initiator and the responder start from the
/// same symmetric state (same protocol name and prologue) and every message
/// is delivered unchanged, each side reads the other's payloads, both end
/// with the same handshake hash and the same pair of transport ciphers, and
/// each learns the other's static public key — given that X25519 agrees
/// for the three key pairs the pattern combines and that ChaCha20-Poly1305
/// decrypts what it encrypts.
pub proof fn lemma_xx_handshake_agreement(i: HsModel, r: HsModel, p0: Seq<u8>, p1: Seq<u8>, p2: Seq<u8>)
    requires
        i.ss == r.ss,
        i.ss.cipher is None,
        i.e_pub.len() == 32,
        r.e_pub.len() == 32,
        i.s_pub.len() == 32,
        r.s_pub.len() == 32,
        aead_is_correct(),
        dh_agrees(i.e_priv, i.e_pub, r.e_priv, r.e_pub),
        dh_agrees(i.e_priv, i.e_pub, r.s_priv, r.s_pub),
        dh_agrees(i.s_priv, i.s_pub, r.e_priv, r.e_pub),
    ensures
        ({
            let (i1, m0) = i.xx_write_msg0(p0);
            let (r1, got0) = r.xx_read_msg0(m0);
            let (r2, m1) = r1.xx_write_msg1(p1);
            let (i2, got1) = i1.xx_read_msg1(m1);
            let (m2, out_i) = i2.xx_write_msg2(p2);
            let got2 = r2.xx_read_msg2(m2);
            &&& got0 == Ok::<Seq<u8>, Seq<char>>(p0)
            &&& got1 == Ok::<Seq<u8>, Seq<char>>(p1)
            &&& got2 matches Ok((out_r, got_p2))
            &&& got_p2 == p2
            &&& out_r.from_initiator == out_i.from_initiator
            &&& out_r.from_responder == out_i.from_responder
            &&& out_r.hash == out_i.hash
            &&& out_i.remote_static == r.s_pub
            &&& out_r.remote_static == i.s_pub
        }),
{
    // -> e
    let ia = i.ss.mix_hash(i.e_pub);
    lemma_sym_roundtrip(ia, p0);
    let (i1, m0) = i.xx_write_msg0(p0);
    assert(head32(m0) =~= i.e_pub);
    assert(tail_from(m0, 32) =~= ia.encrypt_and_hash(p0).1);
    let (r1, got0) = r.xx_read_msg0(m0);
    assert(r1.ss == i1.ss);
    assert(r1.re == i.e_pub);

    // <- e, ee, s, es
    let ra = r1.ss.mix_hash(r.e_pub).mix_key(spec_x25519(r.e_priv, i.e_pub));
    lemma_sym_roundtrip(ra, r.s_pub);
    let (rb, enc_s) = ra.encrypt_and_hash(r.s_pub);
    let rc = rb.mix_key(spec_x25519(r.s_priv, i.e_pub));
    lemma_sym_roundtrip(rc, p1);
    let (r2, m1) = r1.xx_write_msg1(p1);
    assert(enc_s.len() == 48);
    assert(head32(m1) =~= r.e_pub);
    let rest = tail_from(m1, 32);
    assert(rest.subrange(0, 48) =~= enc_s);
    assert(tail_from(rest, 48) =~= rc.encrypt_and_hash(p1).1);
    let (i2, got1) = i1.xx_read_msg1(m1);
    assert(i2.ss == r2.ss);
    assert(i2.rs == r.s_pub);
    assert(i2.re == r.e_pub);

    // -> s, se
    lemma_sym_roundtrip(i2.ss, i.s_pub);
    let (ib, enc_si) = i2.ss.encrypt_and_hash(i.s_pub);
    let ic = ib.mix_key(spec_x25519(i.s_priv, r.e_pub));
    lemma_sym_roundtrip(ic, p2);
    let (m2, out_i) = i2.xx_write_msg2(p2);
    assert(m2.subrange(0, 48) =~= enc_si);
    assert(tail_from(m2, 48) =~= ic.encrypt_and_hash(p2).1);
}

/// Honest NK handshake: when the initiator knows the responder's static
/// public key, both start from the same symmetric state and both messages
/// are delivered unchanged, each side reads the other's payload and both
/// end with the same handshake hash and the same pair of transport
/// ciphers — given that X25519 agrees for the two key pairs the pattern
/// combines and that ChaCha20-Poly1305 decrypts what it encrypts.
pub proof fn lemma_nk_handshake_agreement(i: HsModel, r: HsModel, p0: Seq<u8>, p1: Seq<u8>)
    requires
        i.ss == r.ss,
        i.rs == r.s_pub,
        i.e_pub.len() == 32,
        r.e_pub.len() == 32,
        aead_is_correct(),
        dh_agrees(i.e_priv, i.e_pub, r.e_priv, r.e_pub),
        dh_agrees(i.e_priv, i.e_pub, r.s_priv, r.s_pub),
    ensures
        ({
            let (i1, m0) = i.nk_write_msg0(p0);
            let (r1, got0) = r.nk_read_msg0(m0);
            let (m1, out_r) = r1.nk_write_msg1(p1);
            let got1 = i1.nk_read_msg1(m1);
            &&& got0 == Ok::<Seq<u8>, Seq<char>>(p0)
            &&& got1 matches Ok((out_i, got_p1))
            &&& got_p1 == p1
            &&& out_r.from_initiator == out_i.from_initiator
            &&& out_r.from_responder == out_i.from_responder
            &&& out_r.hash == out_i.hash
        }),
{
    let ia = i.ss.mix_hash(i.e_pub).mix_key(spec_x25519(i.e_priv, i.rs));
    lemma_sym_roundtrip(ia, p0);
    let (i1, m0) = i.nk_write_msg0(p0);
    assert(head32(m0) =~= i.e_pub);
    assert(tail_from(m0, 32) =~= ia.encrypt_and_hash(p0).1);
    let (r1, got0) = r.nk_read_msg0(m0);
    assert(r1.ss == i1.ss);

    let ra = r1.ss.mix_hash(r.e_pub).mix_key(spec_x25519(r.e_priv, i.e_pub));
    lemma_sym_roundtrip(ra, p1);
    let (m1, out_r) = r1.nk_write_msg1(p1);
    assert(head32(m1) =~= r.e_pub);
    assert(tail_from(m1, 32) =~= ra.encrypt_and_hash(p1).1);
}

} // verus!

verus! {

/// NK keeps the initiator anonymous: two initiators that differ only in
/// their static keypair send the same first message and end with the same
/// outcome for any second message — the initiator's static key never
/// enters the handshake.
pub proof fn lemma_nk_initiator_anonymous(a: HsModel, b: HsModel, p0: Seq<u8>, m1: Seq<u8>)
    requires
        a.ss == b.ss,
        a.e_priv == b.e_priv,
        a.e_pub == b.e_pub,
        a.rs == b.rs,
        a.re == b.re,
    ensures
        a.nk_write_msg0(p0).1 == b.nk_write_msg0(p0).1,
        a.nk_write_msg0(p0).0.nk_read_msg1(m1) == b.nk_write_msg0(p0).0.nk_read_msg1(m1),
{
}

/// An NK responder never learns a static key of the initiator: whatever
/// the first message, its state keeps the remote static key it started
/// with.
pub proof fn lemma_nk_responder_learns_no_static_key(r: HsModel, m0: Seq<u8>, p1: Seq<u8>)
    ensures
        r.nk_read_msg0(m0).0.rs == r.rs,
        r.nk_read_msg0(m0).0.nk_write_msg1(p1).1.remote_static == r.rs,
{
}

} // verus!
