//! The Noise SymmetricState: chaining key, handshake hash and the optional
//! CipherState used for handshake payloads, with HMAC-BLAKE2s and the Noise
//! HKDF built on the BLAKE2s hash.
use vstd::prelude::*;
use blake2::Digest;
use vstd::string::StringSliceAdditionalSpecFns;
use crate::bytes::{append_bytes, concat, to_array32, to_vec};
use crate::cipher::{sealable_len, CipherModel, CipherState};

verus! {

/// Block size of BLAKE2s, in bytes.
pub const BLOCK_SIZE: usize = 64;

/// The BLAKE2s-256 digest of `data`, as computed by the `blake2` crate.
pub uninterp spec fn spec_blake2s(data: Seq<u8>) -> Seq<u8>;

/// Returns the BLAKE2s-256 hash of data, by `blake2::Blake2s256` (new,
/// update, finalize). Claimed: the digest is `spec_blake2s` of the data, a
/// function of the data alone.
#[verifier::external_body]
pub(crate) fn blake2s256(data: &[u8]) -> (digest: [u8; 32])
    ensures
        digest@ == spec_blake2s(data@),
{
    let mut hasher = blake2::Blake2s256::new();
    blake2::digest::Update::update(&mut hasher, data);
    hasher.finalize().into()
}

/// `n` zero bytes.
pub open spec fn zeros(n: nat) -> Seq<u8> {
    Seq::new(n, |i: int| 0u8)
}

/// `k` cut or zero-padded to exactly `n` bytes.
pub open spec fn fit(k: Seq<u8>, n: nat) -> Seq<u8> {
    if k.len() >= n {
        k.take(n as int)
    } else {
        k + zeros((n - k.len()) as nat)
    }
}

/// The initial handshake hash for a protocol name (spec §5.2): the name
/// zero-padded to 32 bytes if it fits, else its hash.
pub open spec fn initial_hash(name: Seq<u8>) -> Seq<u8> {
    if name.len() <= 32 {
        fit(name, 32)
    } else {
        spec_blake2s(name)
    }
}

/// The HMAC key block: keys longer than a block are hashed first, then the
/// key is fitted to the 64-byte block.
pub open spec fn hmac_key_block(key: Seq<u8>) -> Seq<u8> {
    fit(if key.len() > 64 { spec_blake2s(key) } else { key }, 64)
}

/// Every byte of the 64-byte block `k` XORed with `pad`.
pub open spec fn xor_block(k: Seq<u8>, pad: u8) -> Seq<u8> {
    Seq::new(64, |i: int| k[i] ^ pad)
}

/// HMAC-BLAKE2s-256(key, data) per RFC 2104.
pub open spec fn hmac_spec(key: Seq<u8>, data: Seq<u8>) -> Seq<u8> {
    let k = hmac_key_block(key);
    spec_blake2s(xor_block(k, 0x5c) + spec_blake2s(xor_block(k, 0x36) + data))
}

/// The Noise HKDF with two outputs (spec §4).
pub open spec fn hkdf2_spec(ck: Seq<u8>, ikm: Seq<u8>) -> (Seq<u8>, Seq<u8>) {
    let temp_key = hmac_spec(ck, ikm);
    let out1 = hmac_spec(temp_key, seq![1u8]);
    let out2 = hmac_spec(temp_key, out1.push(2u8));
    (out1, out2)
}

/// The text of the error that `decrypt_and_hash` returns when the embedded
/// CipherState fails to authenticate.
pub open spec fn sym_decrypt_error_text() -> Seq<char> {
    "noise: SymmetricState decrypt: "@ + crate::cipher::auth_error_text()
}

/// Abstract state of a SymmetricState.
pub struct SymModel {
    pub ck: Seq<u8>,
    pub h: Seq<u8>,
    pub cipher: Option<CipherModel>,
}

impl SymModel {
    /// The state that `SymmetricState::new` gives for a protocol name.
    pub open spec fn init(name: Seq<u8>) -> SymModel {
        SymModel { ck: initial_hash(name), h: initial_hash(name), cipher: None }
    }

    /// MixHash: h = HASH(h || data).
    pub open spec fn mix_hash(self, data: Seq<u8>) -> SymModel {
        SymModel { ck: self.ck, h: spec_blake2s(self.h + data), cipher: self.cipher }
    }

    /// MixKey: ck, k = HKDF(ck, ikm); the cipher restarts at nonce zero.
    pub open spec fn mix_key(self, ikm: Seq<u8>) -> SymModel {
        SymModel {
            ck: hkdf2_spec(self.ck, ikm).0,
            h: self.h,
            cipher: Some(CipherModel { key: hkdf2_spec(self.ck, ikm).1, n: 0 }),
        }
    }

    /// EncryptAndHash: the new state and the ciphertext (the plaintext itself
    /// while there is no key).
    pub open spec fn encrypt_and_hash(self, plaintext: Seq<u8>) -> (SymModel, Seq<u8>) {
        match self.cipher {
            None => (self.mix_hash(plaintext), plaintext),
            Some(c) => {
                let ct = c.seal(self.h, plaintext);
                (SymModel { ck: self.ck, h: spec_blake2s(self.h + ct), cipher: Some(c.next()) }, ct)
            },
        }
    }

    /// DecryptAndHash: the new state and the plaintext, or `None` when
    /// authentication fails (then the state is unchanged).
    pub open spec fn decrypt_and_hash(self, ciphertext: Seq<u8>) -> (SymModel, Option<Seq<u8>>) {
        match self.cipher {
            None => (self.mix_hash(ciphertext), Some(ciphertext)),
            Some(c) => match c.open(self.h, ciphertext) {
                Some(p) => (
                    SymModel { ck: self.ck, h: spec_blake2s(self.h + ciphertext), cipher: Some(c.next()) },
                    Some(p),
                ),
                None => (self, None),
            },
        }
    }

    /// Split: (fromInitiator, fromResponder), keyed by the first and the
    /// second HKDF output of the chaining key (spec §5.2).
    pub open spec fn split(self) -> (CipherModel, CipherModel) {
        (
            CipherModel { key: hkdf2_spec(self.ck, Seq::empty()).0, n: 0 },
            CipherModel { key: hkdf2_spec(self.ck, Seq::empty()).1, n: 0 },
        )
    }

    /// The embedded cipher, if any, can encrypt a plaintext of this length.
    pub open spec fn can_encrypt(self, len: nat) -> bool {
        match self.cipher {
            None => true,
            Some(c) => c.can_advance() && sealable_len(len),
        }
    }

    /// The embedded cipher, if any, can decrypt.
    pub open spec fn can_decrypt(self) -> bool {
        match self.cipher {
            None => true,
            Some(c) => c.can_advance(),
        }
    }
}

/// SymmetricState implements the Noise SymmetricState object.
/// Maintains the chaining key (ck), handshake hash (h), and an
/// embedded CipherState for encrypting/decrypting handshake payloads.
pub struct SymmetricState {
    pub ck: [u8; 32],
    pub h: [u8; 32],
    cs: Option<CipherState>,
}

impl View for SymmetricState {
    type V = SymModel;

    closed spec fn view(&self) -> SymModel {
        SymModel {
            ck: self.ck@,
            h: self.h@,
            cipher: match self.cs {
                Some(c) => Some(c@),
                None => None,
            },
        }
    }
}

impl SymmetricState {
    /// Initialises a SymmetricState with the protocol name.
    /// Per spec §5.2: if len(name) <= 32, h = name zero-padded; else h = HASH(name).
    pub fn new(protocol_name: &str) -> (ss: Self)
        ensures
            ss@ == SymModel::init(protocol_name.spec_bytes()),
    {
        let name = protocol_name.as_bytes();
        let mut h = [0u8; 32];
        if name.len() <= 32 {
            let n = name.len();
            let mut i: usize = 0;
            while i < n
                invariant
                    n == name@.len(),
                    n <= 32,
                    i <= n,
                    forall|j: int| 0 <= j < i ==> h@[j] == name@[j],
                    forall|j: int| i <= j < 32 ==> h@[j] == 0u8,
                decreases n - i,
            {
                h[i] = name[i];
                i = i + 1;
            }
            assert(h@ =~= fit(name@, 32));
        } else {
            h = blake2s256(name);
        }
        let ss = Self { ck: h, h, cs: None };
        assert(ss@ == SymModel::init(protocol_name.spec_bytes()));
        ss
    }

    /// The handshake hash h.
    pub fn handshake_hash(&self) -> (h: [u8; 32])
        ensures
            h@ == self@.h,
    {
        self.h
    }

    /// The embedded CipherState's nonce counter, if there is a key.
    pub fn cipher_nonce(&self) -> (n: Option<u64>)
        ensures
            match self@.cipher {
                Some(c) => n == Some(c.n),
                None => n is None,
            },
    {
        match &self.cs {
            Some(c) => Some(c.nonce()),
            None => None,
        }
    }

    /// Updates the chaining key and initialises a new CipherState.
    /// Per spec §5.2 MixKey.
    pub fn mix_key(&mut self, ikm: &[u8])
        ensures
            final(self)@ == old(self)@.mix_key(ikm@),
    {
        let (ck, k) = hkdf2(&self.ck, ikm);
        self.ck = to_array32(ck.as_slice());
        let key = to_array32(k.as_slice());
        self.cs = Some(CipherState::new(key));
        assert(self@.cipher == Some(CipherModel { key: hkdf2_spec(old(self)@.ck, ikm@).1, n: 0 }));
    }

    /// Updates the handshake hash.
    /// Per spec §5.2 MixHash: h = HASH(h || data).
    pub fn mix_hash(&mut self, data: &[u8])
        ensures
            final(self)@ == old(self)@.mix_hash(data@),
    {
        let buf = concat(&self.h, data);
        self.h = blake2s256(buf.as_slice());
    }

    /// Encrypts plaintext (or passes through if no key yet),
    /// mixes ciphertext into h, and returns the ciphertext.
    /// A SymmetricState in the state this one had before the call decrypts
    /// the result back to the plaintext and reaches the same new state.
    pub fn encrypt_and_hash(&mut self, plaintext: &[u8]) -> (ct: Vec<u8>)
        requires
            old(self)@.can_encrypt(plaintext@.len()),
        ensures
            (final(self)@, ct@) == old(self)@.encrypt_and_hash(plaintext@),
            old(self)@.decrypt_and_hash(ct@) == (final(self)@, Some(plaintext@)),
            old(self)@.cipher is Some ==> ct@.len() == plaintext@.len() + 16,
            old(self)@.cipher is None ==> ct@.len() == plaintext@.len(),
    {
        let ciphertext = match &mut self.cs {
            Some(cs) => cs.encrypt(&self.h, plaintext),
            None => to_vec(plaintext),
        };
        self.mix_hash(ciphertext.as_slice());
        ciphertext
    }

    /// Decrypts ciphertext (or passes through if no key yet),
    /// mixes ciphertext into h, and returns the plaintext.
    pub fn decrypt_and_hash(&mut self, ciphertext: &[u8]) -> (res: Result<Vec<u8>, String>)
        requires
            old(self)@.can_decrypt(),
        ensures
            final(self)@ == old(self)@.decrypt_and_hash(ciphertext@).0,
            match res {
                Ok(p) => old(self)@.decrypt_and_hash(ciphertext@).1 == Some(p@),
                Err(e) => old(self)@.decrypt_and_hash(ciphertext@).1 is None
                    && e@ == sym_decrypt_error_text(),
            },
            old(self)@.cipher is Some ==> (res matches Ok(p) ==> p@.len() + 16 == ciphertext@.len()),
            old(self)@.cipher is Some && ciphertext@.len() < 16 ==> res is Err,
    {
        let plaintext = match &mut self.cs {
            Some(cs) => match cs.decrypt(&self.h, ciphertext) {
                Ok(p) => p,
                Err(e) => {
                    let msg = String::from_str("noise: SymmetricState decrypt: ");
                    return Err(msg.concat(e.as_str()));
                },
            },
            None => to_vec(ciphertext),
        };
        self.mix_hash(ciphertext);
        Ok(plaintext)
    }

    /// Returns two CipherStates for post-handshake transport.
    /// fromInitiator carries initiator→responder traffic.
    /// fromResponder carries responder→initiator traffic.
    /// Per spec §5.2 Split.
    pub fn split(self) -> (res: (CipherState, CipherState))
        ensures
            (res.0@, res.1@) == self@.split(),
    {
        let empty: Vec<u8> = Vec::new();
        let (k1, k2) = hkdf2(&self.ck, empty.as_slice());
        let k1key = to_array32(k1.as_slice());
        let k2key = to_array32(k2.as_slice());
        // k1 → fromInitiator, k2 → fromResponder, as the Noise specification
        // and every spec-compliant implementation assign them.
        (CipherState::new(k1key), CipherState::new(k2key))
    }
}

/// Derives two 32-byte output keys from a chaining key and input key material.
/// Per Noise Protocol spec §4:
///   temp_key = HMAC-BLAKE2s(ck, ikm)
///   output1  = HMAC-BLAKE2s(temp_key, 0x01)
///   output2  = HMAC-BLAKE2s(temp_key, output1 || 0x02)
pub fn hkdf2(ck: &[u8], ikm: &[u8]) -> (out: (Vec<u8>, Vec<u8>))
    ensures
        (out.0@, out.1@) == hkdf2_spec(ck@, ikm@),
        out.0@.len() == 32,
        out.1@.len() == 32,
{
    let temp_key = hmac_blake2s(ck, ikm);
    let one = [0x01u8];
    assert(one@ =~= seq![1u8]);
    let out1 = hmac_blake2s(temp_key.as_slice(), &one);
    let mut out2_input = to_vec(out1.as_slice());
    out2_input.push(0x02u8);
    let out2 = hmac_blake2s(temp_key.as_slice(), out2_input.as_slice());
    (out1, out2)
}

/// Computes HMAC-BLAKE2s-256(key, data) per RFC 2104.
/// BLAKE2s block size is 64 bytes.
pub fn hmac_blake2s(key: &[u8], data: &[u8]) -> (mac: Vec<u8>)
    ensures
        mac@ == hmac_spec(key@, data@),
        mac@.len() == 32,
{
    let mut k = to_vec(key);
    if k.len() > BLOCK_SIZE {
        let digest = blake2s256(k.as_slice());
        k = to_vec(&digest);
    }
    let ghost unpadded = k@;
    assert(unpadded == (if key@.len() > 64 { spec_blake2s(key@) } else { key@ }));
    while k.len() < BLOCK_SIZE
        invariant
            k@.len() <= BLOCK_SIZE,
            k@ == unpadded + zeros((k@.len() - unpadded.len()) as nat),
            unpadded.len() <= k@.len(),
        decreases BLOCK_SIZE - k.len(),
    {
        k.push(0u8);
        assert(k@ =~= unpadded + zeros((k@.len() - unpadded.len()) as nat));
    }
    assert(k@ =~= hmac_key_block(key@));

    let mut ipad: Vec<u8> = Vec::new();
    let mut opad: Vec<u8> = Vec::new();
    let mut i: usize = 0;
    while i < BLOCK_SIZE
        invariant
            k@.len() == BLOCK_SIZE,
            i <= BLOCK_SIZE,
            ipad@ =~= xor_block(k@, 0x36).take(i as int),
            opad@ =~= xor_block(k@, 0x5c).take(i as int),
        decreases BLOCK_SIZE - i,
    {
        ipad.push(k[i] ^ 0x36u8);
        opad.push(k[i] ^ 0x5cu8);
        i = i + 1;
    }
    assert(ipad@ =~= xor_block(k@, 0x36));
    assert(opad@ =~= xor_block(k@, 0x5c));
    append_bytes(&mut ipad, data);
    let inner = blake2s256(ipad.as_slice());
    append_bytes(&mut opad, &inner);
    let outer = blake2s256(opad.as_slice());
    assert(outer@ == hmac_spec(key@, data@));
    to_vec(&outer)
}

} // verus!
