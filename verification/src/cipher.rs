//! The Noise CipherState: ChaCha20-Poly1305 keyed by a 32-byte key, with a
//! 64-bit nonce counter that advances on every encryption and on every
//! successful decryption.
use vstd::prelude::*;
use chacha20poly1305::aead::{Aead, KeyInit};

verus! {

/// Largest Noise message, in bytes.
pub const MAX_MESSAGE_SIZE: usize = 65535;

/// Size of the ChaCha20-Poly1305 authentication tag, in bytes.
pub const TAG_SIZE: usize = 16;

/// Ciphertext (with the 16-byte tag appended) that ChaCha20-Poly1305, as
/// implemented by the `chacha20poly1305` crate, produces for the given key,
/// 12-byte nonce, associated data and plaintext.
pub uninterp spec fn spec_chacha_seal(key: Seq<u8>, nonce: Seq<u8>, ad: Seq<u8>, plaintext: Seq<u8>) -> Seq<u8>;

/// Plaintext that ChaCha20-Poly1305, as implemented by the `chacha20poly1305`
/// crate, recovers from the given key, nonce, associated data and ciphertext,
/// or `None` when authentication fails.
pub uninterp spec fn spec_chacha_open(key: Seq<u8>, nonce: Seq<u8>, ad: Seq<u8>, ciphertext: Seq<u8>) -> Option<Seq<u8>>;

/// Plaintexts that `chacha20poly1305` accepts: it refuses a buffer of
/// `u32::MAX` or more 64-byte blocks.
pub open spec fn sealable_len(len: nat) -> bool {
    len / 64 < 4294967295 && len + 16 <= usize::MAX
}

/// Calls `ChaCha20Poly1305::new(key).encrypt(nonce, Payload { msg, aad })`.
/// Claimed: the result is `spec_chacha_seal` of the arguments; it is the
/// plaintext's length plus the 16-byte tag long; and decrypting it under the
/// same key, nonce and associated data gives the plaintext back (the
/// defining property of an AEAD, which the crate's documentation states).
/// The crate only fails on plaintexts that `sealable_len` excludes.
#[verifier::external_body]
fn chacha_seal(key: &[u8; 32], nonce: &[u8; 12], ad: &[u8], plaintext: &[u8]) -> (ct: Vec<u8>)
    requires
        sealable_len(plaintext@.len()),
    ensures
        ct@ == spec_chacha_seal(key@, nonce@, ad@, plaintext@),
        ct@.len() == plaintext@.len() + 16,
        spec_chacha_open(key@, nonce@, ad@, ct@) == Some(plaintext@),
{
    let cipher = chacha20poly1305::ChaCha20Poly1305::new(chacha20poly1305::Key::from_slice(key));
    let payload = chacha20poly1305::aead::Payload { msg: plaintext, aad: ad };
    cipher.encrypt(chacha20poly1305::Nonce::from_slice(nonce), payload).unwrap()
}

/// Calls `ChaCha20Poly1305::new(key).decrypt(nonce, Payload { msg, aad })`.
/// Claimed: the result is `spec_chacha_open` of the arguments; a ciphertext
/// shorter than the 16-byte tag is refused (the crate checks this first), and
/// a recovered plaintext is the ciphertext's length minus the tag.
#[verifier::external_body]
fn chacha_open(key: &[u8; 32], nonce: &[u8; 12], ad: &[u8], ciphertext: &[u8]) -> (pt: Option<Vec<u8>>)
    ensures
        match pt {
            Some(p) => spec_chacha_open(key@, nonce@, ad@, ciphertext@) == Some(p@),
            None => spec_chacha_open(key@, nonce@, ad@, ciphertext@) is None,
        },
        ciphertext@.len() < 16 ==> pt is None,
        pt matches Some(p) ==> p@.len() + 16 == ciphertext@.len(),
{
    let cipher = chacha20poly1305::ChaCha20Poly1305::new(chacha20poly1305::Key::from_slice(key));
    let payload = chacha20poly1305::aead::Payload { msg: ciphertext, aad: ad };
    cipher.decrypt(chacha20poly1305::Nonce::from_slice(nonce), payload).ok()
}

/// The 12-byte Noise nonce for counter `n`: four zero bytes, then `n` in
/// little-endian order.
pub open spec fn nonce_bytes(n: u64) -> Seq<u8> {
    seq![
        0u8, 0u8, 0u8, 0u8,
        n as u8, (n >> 8u64) as u8, (n >> 16u64) as u8, (n >> 24u64) as u8,
        (n >> 32u64) as u8, (n >> 40u64) as u8, (n >> 48u64) as u8, (n >> 56u64) as u8,
    ]
}

/// Abstract state of a CipherState: its key and its nonce counter.
pub struct CipherModel {
    pub key: Seq<u8>,
    pub n: u64,
}

impl CipherModel {
    /// The ciphertext this state produces for `plaintext` under `ad`.
    pub open spec fn seal(self, ad: Seq<u8>, plaintext: Seq<u8>) -> Seq<u8> {
        spec_chacha_seal(self.key, nonce_bytes(self.n), ad, plaintext)
    }

    /// The plaintext this state recovers from `ciphertext` under `ad`.
    pub open spec fn open(self, ad: Seq<u8>, ciphertext: Seq<u8>) -> Option<Seq<u8>> {
        spec_chacha_open(self.key, nonce_bytes(self.n), ad, ciphertext)
    }

    /// The same key with the nonce counter advanced by one.
    pub open spec fn next(self) -> CipherModel {
        CipherModel { key: self.key, n: (self.n + 1) as u64 }
    }

    /// The nonce counter can still advance.
    pub open spec fn can_advance(self) -> bool {
        self.n < u64::MAX
    }
}

/// The text of the error that a failed decryption returns.
pub open spec fn auth_error_text() -> Seq<char> {
    "noise: decrypt failed: authentication error"@
}

/// CipherState implements the Noise CipherState object.
/// Wraps ChaCha20-Poly1305 and tracks the nonce counter.
pub struct CipherState {
    k: [u8; 32],
    n: u64,
}

impl View for CipherState {
    type V = CipherModel;

    closed spec fn view(&self) -> CipherModel {
        CipherModel { key: self.k@, n: self.n }
    }
}

impl CipherState {
    /// A CipherState with the given key and nonce counter zero.
    pub fn new(key: [u8; 32]) -> (cs: Self)
        ensures
            cs@ == (CipherModel { key: key@, n: 0 }),
    {
        Self { k: key, n: 0 }
    }

    /// The current nonce counter.
    pub fn nonce(&self) -> (n: u64)
        ensures
            n == self@.n,
    {
        self.n
    }

    /// Encrypts plaintext with additional data, returning ciphertext+tag.
    /// The nonce counter advances by one; a CipherState with the same key and
    /// counter as this one had before the call decrypts the result back to
    /// the plaintext.
    pub fn encrypt(&mut self, ad: &[u8], plaintext: &[u8]) -> (ct: Vec<u8>)
        requires
            old(self)@.can_advance(),
            sealable_len(plaintext@.len()),
        ensures
            final(self)@ == old(self)@.next(),
            ct@ == old(self)@.seal(ad@, plaintext@),
            ct@.len() == plaintext@.len() + TAG_SIZE,
            old(self)@.open(ad@, ct@) == Some(plaintext@),
    {
        let nonce = Self::make_nonce(self.n);
        self.n = self.n + 1;
        chacha_seal(&self.k, &nonce, ad, plaintext)
    }

    /// Decrypts ciphertext with additional data, returning plaintext.
    /// The nonce counter advances by one when authentication succeeds; a
    /// failure returns the authentication error text and leaves the state
    /// unchanged (Noise spec §5.1).
    pub fn decrypt(&mut self, ad: &[u8], ciphertext: &[u8]) -> (res: Result<Vec<u8>, String>)
        requires
            old(self)@.can_advance(),
        ensures
            ciphertext@.len() < TAG_SIZE ==> res is Err,
            match res {
                Ok(p) => old(self)@.open(ad@, ciphertext@) == Some(p@)
                    && p@.len() + TAG_SIZE == ciphertext@.len()
                    && final(self)@ == old(self)@.next(),
                Err(e) => old(self)@.open(ad@, ciphertext@) is None && e@ == auth_error_text()
                    && final(self)@ == old(self)@,
            },
    {
        let nonce = Self::make_nonce(self.n);
        match chacha_open(&self.k, &nonce, ad, ciphertext) {
            Some(p) => {
                self.n = self.n + 1;
                Ok(p)
            },
            None => Err(String::from_str("noise: decrypt failed: authentication error")),
        }
    }

    /// Encodes n as a 12-byte little-endian nonce (per Noise spec §4).
    /// Bytes 0–3 are zero; bytes 4–11 are the counter in little-endian order.
    pub fn make_nonce(n: u64) -> (nonce: [u8; 12])
        ensures
            nonce@ == nonce_bytes(n),
    {
        [
            0u8, 0u8, 0u8, 0u8,
            n as u8, (n >> 8u64) as u8, (n >> 16u64) as u8, (n >> 24u64) as u8,
            (n >> 32u64) as u8, (n >> 40u64) as u8, (n >> 48u64) as u8, (n >> 56u64) as u8,
        ]
    }
}

} // verus!
