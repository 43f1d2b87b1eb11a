//! A secure message-framing layer for a message-oriented transport.
//!
//! Every application message is sealed with AES-256-GCM into a wire frame
//! `nonce ‖ ciphertext ‖ tag` before transmission and authenticated and
//! decrypted on receipt.  The crate holds the cryptographic framing core
//! (`crypto`) and the port-range utility (`PortRange`); binding a handler to
//! an actual transport socket is left to the embedding application.
use vstd::prelude::*;

pub mod crypto;
pub mod port;

pub use port::PortRange;

verus! {

/// Largest frame this layer accepts on the wire, in bytes.  A received frame
/// longer than this is rejected before any cryptographic work.
pub const MAX_MESSAGE_SIZE: usize = 1024000;

/// Byte length of the symmetric key (AES-256-GCM).
pub const KEY_LEN: usize = 32;

/// Byte length of the per-message nonce (96 bits).
pub const NONCE_LEN: usize = 12;

/// Byte length of the authentication tag (128 bits).
pub const TAG_LEN: usize = 16;

/// Fixed per-frame overhead: a frame is exactly this much longer than its
/// plaintext.
pub const FRAME_OVERHEAD: usize = NONCE_LEN + TAG_LEN;

/// Everything that can go wrong in this layer.  Transport failures are not
/// reinterpreted here; they stay with the code that owns the socket.
#[derive(Clone, Copy, Debug, PartialEq, Eq, Structural)]
pub enum Error {
    /// The key material has the wrong length (construction-time, fatal to the
    /// handler).
    InvalidKeyMaterial,
    /// The caller-supplied buffer cannot hold the worst-case seal overhead.
    BufferTooSmall,
    /// The underlying seal operation failed (unexpected; not retried).
    EncryptionFailure,
    /// Authentication failed on a received frame (recoverable; drop the frame
    /// and continue).
    DecryptionFailure,
    /// A received frame is shorter than the nonce.
    FrameTooShort,
    /// A received frame exceeds `MAX_MESSAGE_SIZE`.
    MessageTooLarge,
    /// A malformed or inverted textual port range.
    InvalidPortRange,
}

} // verus!
