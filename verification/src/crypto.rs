//! The cryptographic framing core: a per-connection handler that seals every
//! outbound message into a frame `nonce ‖ ciphertext ‖ tag` and authenticates
//! and decrypts every inbound frame, with AES-256-GCM supplied by ring.
use vstd::prelude::*;
use vstd::pervasive::VecAdditionalExecFns;
use vstd::slice::slice_to_vec;

use crate::Error;
use crate::{FRAME_OVERHEAD, KEY_LEN, MAX_MESSAGE_SIZE, NONCE_LEN, TAG_LEN};

verus! {

/// Longest plaintext AES-256-GCM seals under one nonce; ring rejects longer
/// inputs (NIST SP800-38D limit, `(2^39 - 256) / 8` bytes).
pub const GCM_MAX_PLAINTEXT_LEN: u64 = 68719476704;

/// What AES-256-GCM sealing produces from a key, a nonce and a plaintext:
/// the ciphertext followed by the 16-byte authentication tag.  The result is
/// a function of those three sequences alone; nothing here says what the
/// bytes are.
pub uninterp spec fn gcm_seal(key: Seq<u8>, nonce: Seq<u8>, plaintext: Seq<u8>) -> Seq<u8>;

#[verifier::external_type_specification]
#[verifier::external_body]
pub struct ExSystemRandom(ring::rand::SystemRandom);

/// Relies on ring::rand::SystemRandom::new: constructs a handle to the
/// system's secure random source.
#[verifier::external_body]
fn new_system_random() -> ring::rand::SystemRandom {
    ring::rand::SystemRandom::new()
}

/// Relies on ring::rand::SecureRandom::fill for SystemRandom: fills the
/// buffer with random bytes, leaving its length unchanged.  Nothing is
/// assumed about the bytes themselves.
#[verifier::external_body]
fn fill_random(rng: &ring::rand::SystemRandom, out: &mut Vec<u8>) -> (r: Result<(), Error>)
    ensures
        final(out)@.len() == old(out)@.len(),
{
    ring::rand::SecureRandom::fill(rng, out.as_mut_slice()).map_err(|_| Error::EncryptionFailure)
}

/// Relies on ring::aead::LessSafeKey::seal_in_place_append_tag with
/// AES_256_GCM and no associated data: it overwrites the buffer with the
/// ciphertext and appends the 16-byte tag, a deterministic function of key,
/// nonce and plaintext; it fails exactly when the plaintext is longer than
/// the per-nonce limit.  UnboundKey::new, LessSafeKey::new and
/// Nonce::try_assume_unique_for_key convert the raw key and nonce bytes.
#[verifier::external_body]
fn aead_seal(key: &[u8], nonce: &[u8], buf: &mut Vec<u8>) -> (r: Result<(), Error>)
    requires
        key@.len() == KEY_LEN,
        nonce@.len() == NONCE_LEN,
    ensures
        r is Ok ==> final(buf)@ == gcm_seal(key@, nonce@, old(buf)@) && final(buf)@.len() == old(
            buf,
        )@.len() + TAG_LEN,
        old(buf)@.len() <= GCM_MAX_PLAINTEXT_LEN ==> r is Ok,
        r matches Err(e) ==> e == Error::EncryptionFailure && final(buf)@ == old(buf)@,
{
    let unbound = match ring::aead::UnboundKey::new(&ring::aead::AES_256_GCM, key) {
        Ok(k) => k,
        Err(_) => return Err(Error::EncryptionFailure),
    };
    let sealing = ring::aead::LessSafeKey::new(unbound);
    let n = match ring::aead::Nonce::try_assume_unique_for_key(nonce) {
        Ok(n) => n,
        Err(_) => return Err(Error::EncryptionFailure),
    };
    sealing.seal_in_place_append_tag(n, ring::aead::Aad::empty(), buf).map_err(
        |_| Error::EncryptionFailure,
    )
}

/// Relies on ring::aead::LessSafeKey::open_in_place with AES_256_GCM and no
/// associated data: it verifies the tag over the whole buffer and decrypts in
/// place, so on success the buffer's prefix is the unique plaintext whose
/// sealing under this key and nonce is the received ciphertext and tag; every
/// failure is one opaque error.  On failure the buffer's contents are
/// unspecified (its length cannot change), and no plaintext is revealed.
#[verifier::external_body]
fn aead_open(key: &[u8], nonce: &[u8], buf: &mut Vec<u8>) -> (r: Result<usize, Error>)
    requires
        key@.len() == KEY_LEN,
        nonce@.len() == NONCE_LEN,
    ensures
        final(buf)@.len() == old(buf)@.len(),
        r matches Ok(n) ==> n + TAG_LEN == old(buf)@.len() && gcm_seal(
            key@,
            nonce@,
            final(buf)@.take(n as int),
        ) == old(buf)@,
        forall|p: Seq<u8>|
            p.len() + TAG_LEN == old(buf)@.len() && old(buf)@ == gcm_seal(key@, nonce@, p) ==> (
            r matches Ok(n) && n == p.len() && final(buf)@.take(n as int) == p),
        r matches Err(e) ==> e == Error::DecryptionFailure,
{
    let unbound = match ring::aead::UnboundKey::new(&ring::aead::AES_256_GCM, key) {
        Ok(k) => k,
        Err(_) => return Err(Error::DecryptionFailure),
    };
    let opening = ring::aead::LessSafeKey::new(unbound);
    let n = match ring::aead::Nonce::try_assume_unique_for_key(nonce) {
        Ok(n) => n,
        Err(_) => return Err(Error::DecryptionFailure),
    };
    match opening.open_in_place(n, ring::aead::Aad::empty(), buf.as_mut_slice()) {
        Ok(plaintext) => Ok(plaintext.len()),
        Err(_) => Err(Error::DecryptionFailure),
    }
}

/// A fresh random key of the length the algorithm requires.  Distinctness
/// across calls comes from the secure random source and is checked by tests;
/// no contract can promise it.
pub fn gen_key() -> (r: Vec<u8>)
    ensures
        r@.len() == KEY_LEN,
{
    let rng = new_system_random();
    let mut keybytes: Vec<u8> = vec![0u8; KEY_LEN];
    let _ = fill_random(&rng, &mut keybytes);
    keybytes
}

/// Per-connection AEAD state: the 32-byte symmetric key backing both the
/// sealing and the opening direction for the handler's whole lifetime, and a
/// handle to the secure random source that draws one fresh nonce per sealed
/// message.  A handler holds mutable per-message state and is not safe for
/// unsynchronized concurrent use: callers that share one handler across
/// sessions must serialize seal and open calls.
pub struct Handler {
    key: Vec<u8>,
    rng: ring::rand::SystemRandom,
}

impl View for Handler {
    type V = Seq<u8>;

    /// A handler is its key material.
    closed spec fn view(&self) -> Seq<u8> {
        self.key@
    }
}

impl Handler {
    pub open spec fn wf(&self) -> bool {
        self@.len() == KEY_LEN
    }

    /// Binds a handler to one provisioned key for its entire lifetime,
    /// rejecting key material of any other length.
    pub fn new(key: &[u8]) -> (r: Result<Handler, Error>)
        ensures
            key@.len() == KEY_LEN ==> (r matches Ok(h) && h@ == key@ && h.wf()),
            key@.len() != KEY_LEN ==> (r matches Err(e) && e == Error::InvalidKeyMaterial),
    {
        if key.len() != KEY_LEN {
            return Err(Error::InvalidKeyMaterial);
        }
        Ok(Handler { key: slice_to_vec(key), rng: new_system_random() })
    }

    /// Seals with a caller-supplied nonce: the deterministic part of `seal`.
    /// The buffer's first `len` bytes are the plaintext; on success the
    /// buffer is overwritten with `nonce ‖ ciphertext ‖ tag` and the rest is
    /// untouched.  Callers must never reuse a nonce under one key; `seal`
    /// draws a fresh random nonce for every message and is the ordinary way
    /// to send.
    pub fn seal_with_nonce(&self, buf: &mut Vec<u8>, len: usize, nonce: &[u8]) -> (r: Result<
        usize,
        Error,
    >)
        requires
            self.wf(),
            nonce@.len() == NONCE_LEN,
        ensures
            final(buf)@.len() == old(buf)@.len(),
            len + FRAME_OVERHEAD <= old(buf)@.len() && len <= GCM_MAX_PLAINTEXT_LEN ==> r is Ok,
            r matches Ok(flen) ==> ({
                &&& len + FRAME_OVERHEAD <= old(buf)@.len()
                &&& flen == len + FRAME_OVERHEAD
                &&& final(buf)@.subrange(0, NONCE_LEN as int) == nonce@
                &&& final(buf)@.subrange(NONCE_LEN as int, flen as int) == gcm_seal(
                    self@,
                    nonce@,
                    old(buf)@.take(len as int),
                )
                &&& final(buf)@.skip(flen as int) == old(buf)@.skip(flen as int)
            }),
            r matches Err(e) ==> ({
                &&& final(buf)@ == old(buf)@
                &&& (e == Error::BufferTooSmall || e == Error::EncryptionFailure)
                &&& (e == Error::BufferTooSmall <==> len + FRAME_OVERHEAD > old(buf)@.len())
            }),
    {
        if buf.len() < FRAME_OVERHEAD || len > buf.len() - FRAME_OVERHEAD {
            return Err(Error::BufferTooSmall);
        }
        let ghost buf0: Seq<u8> = buf@;
        let mut work: Vec<u8> = slice_to_vec(&buf.as_slice()[0..len]);
        proof {
            assert(work@ =~= buf0.take(len as int));
        }
        match aead_seal(self.key.as_slice(), nonce, &mut work) {
            Ok(_) => {},
            Err(_) => {
                return Err(Error::EncryptionFailure);
            },
        }
        let n: usize = buf.len();
        let mut i: usize = 0;
        while i < NONCE_LEN
            invariant
                0 <= i <= NONCE_LEN,
                nonce@.len() == NONCE_LEN,
                buf@.len() == n,
                n == buf0.len(),
                n >= FRAME_OVERHEAD,
                forall|k: int| 0 <= k < i ==> buf@[k] == nonce@[k],
                forall|k: int| i <= k < n ==> buf@[k] == buf0[k],
            decreases NONCE_LEN - i,
        {
            buf.set(i, nonce[i]);
            i = i + 1;
        }
        let ghost buf1: Seq<u8> = buf@;
        let mut j: usize = 0;
        while j < work.len()
            invariant
                0 <= j <= work@.len(),
                buf@.len() == n,
                n == buf0.len(),
                work@.len() == len + TAG_LEN,
                len + FRAME_OVERHEAD <= n,
                buf1.len() == n,
                forall|k: int| 0 <= k < NONCE_LEN ==> buf@[k] == buf1[k],
                forall|k: int| 0 <= k < j ==> buf@[NONCE_LEN + k] == work@[k],
                forall|k: int| NONCE_LEN + j <= k < n ==> buf@[k] == buf1[k],
            decreases work@.len() - j,
        {
            buf.set(NONCE_LEN + j, work[j]);
            j = j + 1;
        }
        proof {
            assert(buf@.subrange(0, NONCE_LEN as int) =~= nonce@);
            assert(buf@.subrange(NONCE_LEN as int, (len + FRAME_OVERHEAD) as int) =~= work@);
            assert(buf@.skip((len + FRAME_OVERHEAD) as int) =~= buf0.skip(
                (len + FRAME_OVERHEAD) as int,
            ));
        }
        Ok(len + FRAME_OVERHEAD)
    }

    /// Seals the plaintext in the buffer's first `len` bytes under a fresh
    /// random nonce and lays the frame `nonce ‖ ciphertext ‖ tag` down at the
    /// front of the buffer, returning the frame's length.  Every call draws a
    /// new nonce from the secure random source, so nonce reuse under the key
    /// never occurs by construction.
    pub fn seal(&mut self, buf: &mut Vec<u8>, len: usize) -> (r: Result<usize, Error>)
        requires
            old(self).wf(),
        ensures
            final(self)@ == old(self)@,
            final(self).wf(),
            final(buf)@.len() == old(buf)@.len(),
            r matches Ok(flen) ==> ({
                &&& len + FRAME_OVERHEAD <= old(buf)@.len()
                &&& flen == len + FRAME_OVERHEAD
                &&& final(buf)@.subrange(NONCE_LEN as int, flen as int) == gcm_seal(
                    old(self)@,
                    final(buf)@.subrange(0, NONCE_LEN as int),
                    old(buf)@.take(len as int),
                )
                &&& final(buf)@.skip(flen as int) == old(buf)@.skip(flen as int)
            }),
            r matches Err(e) ==> ({
                &&& final(buf)@ == old(buf)@
                &&& (e == Error::BufferTooSmall || e == Error::EncryptionFailure)
                &&& (e == Error::BufferTooSmall <==> len + FRAME_OVERHEAD > old(buf)@.len())
            }),
    {
        if buf.len() < FRAME_OVERHEAD || len > buf.len() - FRAME_OVERHEAD {
            return Err(Error::BufferTooSmall);
        }
        let mut nonce: Vec<u8> = vec![0u8; NONCE_LEN];
        match fill_random(&self.rng, &mut nonce) {
            Ok(_) => {},
            Err(_) => {
                return Err(Error::EncryptionFailure);
            },
        }
        self.seal_with_nonce(buf, len, nonce.as_slice())
    }

    /// Opens one received frame in place: rejects it before any
    /// cryptographic work if it cannot even hold a nonce or exceeds
    /// `MAX_MESSAGE_SIZE`, otherwise authenticates and decrypts it with the
    /// leading nonce.  On success the buffer's prefix holds exactly the
    /// plaintext that was sealed; any other frame is refused with
    /// `DecryptionFailure` and the buffer is left as received.  The final
    /// `ensures` clause is the round trip: a frame laid out as
    /// `nonce ‖ gcm_seal(key, nonce, p)` always opens to exactly `p`.
    pub fn open(&mut self, buf: &mut Vec<u8>) -> (r: Result<usize, Error>)
        requires
            old(self).wf(),
        ensures
            final(self)@ == old(self)@,
            final(self).wf(),
            final(buf)@.len() == old(buf)@.len(),
            r matches Ok(n) ==> ({
                &&& NONCE_LEN <= old(buf)@.len() <= MAX_MESSAGE_SIZE
                &&& n + FRAME_OVERHEAD == old(buf)@.len()
                &&& gcm_seal(
                    old(self)@,
                    old(buf)@.take(NONCE_LEN as int),
                    final(buf)@.take(n as int),
                ) == old(buf)@.skip(NONCE_LEN as int)
                &&& final(buf)@.skip(n as int) == old(buf)@.skip(n as int)
            }),
            r matches Err(e) ==> ({
                &&& final(buf)@ == old(buf)@
                &&& (e == Error::FrameTooShort <==> old(buf)@.len() < NONCE_LEN)
                &&& (e == Error::MessageTooLarge <==> NONCE_LEN <= old(buf)@.len() && old(
                    buf,
                )@.len() > MAX_MESSAGE_SIZE)
                &&& (e == Error::FrameTooShort || e == Error::MessageTooLarge
                    || e == Error::DecryptionFailure)
            }),
            forall|p: Seq<u8>|
                (p.len() + FRAME_OVERHEAD == old(buf)@.len() && old(buf)@.len()
                    <= MAX_MESSAGE_SIZE && old(buf)@.skip(NONCE_LEN as int) == gcm_seal(
                    old(self)@,
                    old(buf)@.take(NONCE_LEN as int),
                    p,
                )) ==> (r matches Ok(n) && n == p.len() && final(buf)@.take(n as int) == p),
    {
        let blen: usize = buf.len();
        if blen < NONCE_LEN {
            return Err(Error::FrameTooShort);
        }
        if blen > MAX_MESSAGE_SIZE {
            return Err(Error::MessageTooLarge);
        }
        let ghost buf0: Seq<u8> = buf@;
        let nonce: Vec<u8> = slice_to_vec(&buf.as_slice()[0..NONCE_LEN]);
        let mut work: Vec<u8> = slice_to_vec(&buf.as_slice()[NONCE_LEN..blen]);
        proof {
            assert(nonce@ =~= buf0.take(NONCE_LEN as int));
            assert(work@ =~= buf0.skip(NONCE_LEN as int));
        }
        match aead_open(self.key.as_slice(), nonce.as_slice(), &mut work) {
            Ok(n) => {
                let mut i: usize = 0;
                while i < n
                    invariant
                        0 <= i <= n,
                        buf@.len() == buf0.len(),
                        n + TAG_LEN + NONCE_LEN == buf0.len(),
                        n <= work@.len(),
                        forall|k: int| 0 <= k < i ==> buf@[k] == work@[k],
                        forall|k: int| i <= k < buf0.len() ==> buf@[k] == buf0[k],
                    decreases n - i,
                {
                    buf.set(i, work[i]);
                    i = i + 1;
                }
                proof {
                    assert(buf@.take(n as int) =~= work@.take(n as int));
                    assert(buf@.skip(n as int) =~= buf0.skip(n as int));
                }
                Ok(n)
            },
            Err(_) => Err(Error::DecryptionFailure),
        }
    }
}

} // verus!
