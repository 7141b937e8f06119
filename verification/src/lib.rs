//! Noise_XX_25519_ChaChaPoly_BLAKE2s and Noise_NK_25519_ChaChaPoly_BLAKE2s
//! handshakes and framed transport sessions, with verified message logic.
pub mod bytes;
pub mod cipher;
pub mod handshake;
pub mod keypair;
pub mod session;
pub mod session_nk;
pub mod session_xx;
pub mod symmetric;
pub mod text;
pub mod ffi;
pub mod framing;
