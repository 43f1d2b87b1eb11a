use secure_channel::crypto::{gen_key, Handler};
use secure_channel::{Error, FRAME_OVERHEAD, KEY_LEN, MAX_MESSAGE_SIZE, NONCE_LEN};

use ring::aead::{Aad, LessSafeKey, Nonce, UnboundKey, AES_256_GCM};
use ring::rand::{SecureRandom, SystemRandom};
use rand::Rng;
use std::collections::HashSet;

#[test]
fn raw_roundtrip() {
    let rng = SystemRandom::new();
    let mut key_bytes = vec![0u8; AES_256_GCM.key_len()];
    let mut nonce_bytes = vec![0u8; AES_256_GCM.nonce_len()];
    rng.fill(&mut key_bytes).unwrap();
    rng.fill(&mut nonce_bytes).unwrap();
    let key = LessSafeKey::new(UnboundKey::new(&AES_256_GCM, &key_bytes).unwrap());

    let data = [1u8; 1350];
    let mut in_out = data.to_vec();
    key.seal_in_place_append_tag(
        Nonce::try_assume_unique_for_key(&nonce_bytes).unwrap(),
        Aad::empty(),
        &mut in_out,
    )
    .unwrap();

    let opening_key = LessSafeKey::new(UnboundKey::new(&AES_256_GCM, &key_bytes).unwrap());
    let len = opening_key
        .open_in_place(
            Nonce::try_assume_unique_for_key(&nonce_bytes).unwrap(),
            Aad::empty(),
            &mut in_out,
        )
        .unwrap()
        .len();

    assert_eq!(len, 1350);
    assert_eq!(&in_out[..len], &data[..]);
}

#[test]
fn roundtrip() {
    // generate some data, seal it, and then make sure it unseals to the same thing
    let mut rng = rand::thread_rng();

    let key = gen_key();
    let mut handler = Handler::new(&key).unwrap();
    let data_size: usize = rng.gen_range(10..10000);
    let mut data = vec![0u8; MAX_MESSAGE_SIZE];
    for i in 0..data_size {
        data[i] = rand::random();
    }

    let orig = data[..data_size].to_owned();

    let cipher_len = handler.seal(&mut data, data_size).unwrap();
    data.truncate(cipher_len);
    let decrypted_len = handler.open(&mut data).unwrap();
    assert_eq!(decrypted_len, data_size);
    assert_eq!(
        orig,
        &data[..decrypted_len],
        "original and decrypted don't match!"
    );
}

#[test]
fn key_sanity() {
    let mut set: HashSet<Vec<u8>> = HashSet::with_capacity(10000);

    for _ in 0..10000 {
        let key = gen_key();
        assert!(set.insert(key));
    }
}

#[test]
fn gen_key_length() {
    assert_eq!(gen_key().len(), KEY_LEN);
}

#[test]
fn handler_rejects_bad_key_length() {
    assert!(matches!(
        Handler::new(&[0u8; 31]),
        Err(Error::InvalidKeyMaterial)
    ));
    assert!(matches!(
        Handler::new(&[0u8; 33]),
        Err(Error::InvalidKeyMaterial)
    ));
    assert!(Handler::new(&[0u8; 32]).is_ok());
}

#[test]
fn roundtrip_one_byte() {
    let mut handler = Handler::new(&gen_key()).unwrap();
    let mut buf = vec![0xabu8; 1 + FRAME_OVERHEAD];
    let flen = handler.seal(&mut buf, 1).unwrap();
    assert_eq!(flen, 1 + FRAME_OVERHEAD);
    let plen = handler.open(&mut buf).unwrap();
    assert_eq!(plen, 1);
    assert_eq!(buf[0], 0xab);
}

#[test]
fn size_boundary_seal() {
    // A plaintext of exactly MAX_MESSAGE_SIZE - 28 bytes fills the largest
    // acceptable frame; one more byte no longer fits the same buffer.
    let mut handler = Handler::new(&gen_key()).unwrap();
    let mut buf = vec![0x5au8; MAX_MESSAGE_SIZE];
    let flen = handler.seal(&mut buf, MAX_MESSAGE_SIZE - FRAME_OVERHEAD).unwrap();
    assert_eq!(flen, MAX_MESSAGE_SIZE);
    let plen = handler.open(&mut buf).unwrap();
    assert_eq!(plen, MAX_MESSAGE_SIZE - FRAME_OVERHEAD);
    assert!(buf[..plen].iter().all(|&b| b == 0x5a));

    let mut buf = vec![0x5au8; MAX_MESSAGE_SIZE];
    assert_eq!(
        handler
            .seal(&mut buf, MAX_MESSAGE_SIZE - FRAME_OVERHEAD + 1)
            .unwrap_err(),
        Error::BufferTooSmall
    );
}

#[test]
fn size_boundary_open() {
    let mut handler = Handler::new(&gen_key()).unwrap();
    // an oversized frame is rejected before any cryptographic work
    let mut too_large = vec![0u8; MAX_MESSAGE_SIZE + 1];
    assert_eq!(
        handler.open(&mut too_large).unwrap_err(),
        Error::MessageTooLarge
    );
    // a frame that cannot even hold the nonce
    let mut too_short = vec![0u8; NONCE_LEN - 1];
    assert_eq!(
        handler.open(&mut too_short).unwrap_err(),
        Error::FrameTooShort
    );
    // room for the nonce but not for a valid ciphertext and tag
    let mut no_tag = vec![0u8; NONCE_LEN + 8];
    assert_eq!(
        handler.open(&mut no_tag).unwrap_err(),
        Error::DecryptionFailure
    );
}

#[test]
fn tamper_detection() {
    let mut handler = Handler::new(&gen_key()).unwrap();
    let plaintext = b"the quick brown fox jumps over the lazy dog";
    let len = plaintext.len();
    let mut buf = plaintext.to_vec();
    buf.resize(len + FRAME_OVERHEAD, 0);
    let flen = handler.seal(&mut buf, len).unwrap();
    assert_eq!(flen, len + FRAME_OVERHEAD);

    // flipping any single bit of the frame (nonce, ciphertext or tag) must
    // yield DecryptionFailure, never altered plaintext
    for byte in 0..flen {
        for bit in 0..8 {
            let mut tampered = buf.clone();
            tampered[byte] ^= 1 << bit;
            assert_eq!(
                handler.open(&mut tampered).unwrap_err(),
                Error::DecryptionFailure,
                "tampering byte {} bit {} was not detected",
                byte,
                bit
            );
        }
    }

    // the untouched frame still opens
    let plen = handler.open(&mut buf).unwrap();
    assert_eq!(&buf[..plen], &plaintext[..]);
}

#[test]
fn nonce_freshness() {
    let mut handler = Handler::new(&gen_key()).unwrap();
    let mut nonces: HashSet<Vec<u8>> = HashSet::with_capacity(10000);
    for _ in 0..10000 {
        let mut buf = vec![0x11u8; 64 + FRAME_OVERHEAD];
        let flen = handler.seal(&mut buf, 64).unwrap();
        assert_eq!(flen, 64 + FRAME_OVERHEAD);
        assert!(nonces.insert(buf[..NONCE_LEN].to_vec()), "nonce reused");
    }
}

#[test]
fn seal_with_nonce_is_deterministic() {
    let key = [0x11u8; 32];
    let nonce = [0x22u8; 12];
    let handler = Handler::new(&key).unwrap();

    let plaintext = b"deterministic sealing";
    let mut one = plaintext.to_vec();
    one.resize(plaintext.len() + FRAME_OVERHEAD, 0);
    let mut two = one.clone();

    let flen = handler.seal_with_nonce(&mut one, plaintext.len(), &nonce).unwrap();
    assert_eq!(flen, plaintext.len() + FRAME_OVERHEAD);
    handler.seal_with_nonce(&mut two, plaintext.len(), &nonce).unwrap();
    assert_eq!(one, two);

    // the frame carries the nonce up front and really transformed the payload
    assert_eq!(&one[..NONCE_LEN], &nonce[..]);
    assert_ne!(&one[NONCE_LEN..NONCE_LEN + plaintext.len()], &plaintext[..]);

    let mut opener = Handler::new(&key).unwrap();
    let plen = opener.open(&mut one).unwrap();
    assert_eq!(&one[..plen], &plaintext[..]);
}

#[test]
fn seal_with_nonce_rejects_short_buffer() {
    let handler = Handler::new(&[0x33u8; 32]).unwrap();
    let mut buf = vec![0u8; 40];
    assert_eq!(
        handler
            .seal_with_nonce(&mut buf, 40 - FRAME_OVERHEAD + 1, &[0u8; 12])
            .unwrap_err(),
        Error::BufferTooSmall
    );
}

#[test]
fn shared_handler_session() {
    // two accepted sessions share one server handler: frames sealed for each
    // peer under the same key still open correctly and carry distinct nonces
    let key = gen_key();
    let mut server_handler = Handler::new(&key).unwrap();

    let msg_a = b"message for the first peer";
    let msg_b = b"a different message for the second peer";

    let mut frame_a = msg_a.to_vec();
    frame_a.resize(msg_a.len() + FRAME_OVERHEAD, 0);
    let flen_a = server_handler.seal(&mut frame_a, msg_a.len()).unwrap();

    let mut frame_b = msg_b.to_vec();
    frame_b.resize(msg_b.len() + FRAME_OVERHEAD, 0);
    let flen_b = server_handler.seal(&mut frame_b, msg_b.len()).unwrap();

    assert_ne!(&frame_a[..NONCE_LEN], &frame_b[..NONCE_LEN]);

    frame_a.truncate(flen_a);
    let plen_a = server_handler.open(&mut frame_a).unwrap();
    assert_eq!(&frame_a[..plen_a], &msg_a[..]);

    frame_b.truncate(flen_b);
    let plen_b = server_handler.open(&mut frame_b).unwrap();
    assert_eq!(&frame_b[..plen_b], &msg_b[..]);
}

#[test]
fn open_across_handlers_same_key() {
    // the key, not the handler instance, decides whether a frame opens
    let key = gen_key();
    let mut sender = Handler::new(&key).unwrap();
    let mut receiver = Handler::new(&key).unwrap();
    let mut stranger = Handler::new(&gen_key()).unwrap();

    let msg = b"out-of-band provisioned key";
    let mut frame = msg.to_vec();
    frame.resize(msg.len() + FRAME_OVERHEAD, 0);
    sender.seal(&mut frame, msg.len()).unwrap();

    let mut copy = frame.clone();
    assert_eq!(
        stranger.open(&mut copy).unwrap_err(),
        Error::DecryptionFailure
    );
    let plen = receiver.open(&mut frame).unwrap();
    assert_eq!(&frame[..plen], &msg[..]);
}
