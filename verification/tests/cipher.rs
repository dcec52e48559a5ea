use crim::cipher::{decrypt, encrypt, encrypt_with_iv, EncryptedMessage};
use crim::error::Error;
use crim::message::{decode, encode, RawMessage, HEADER_LEN};

fn hello() -> RawMessage {
    RawMessage {
        sender: "alice".to_string(),
        message: b"hello".to_vec(),
        time: "2024-01-02 03:04:05 +00:00".to_string(),
    }
}

#[test]
fn frame_has_the_documented_layout() {
    let frame = encode(&hello()).expect("frame");
    let mut expected = Vec::new();
    expected.extend_from_slice(b"CRIM");
    expected.extend_from_slice(&[0, 0, 0, 5]);
    expected.extend_from_slice(&[0, 0, 0, 5]);
    expected.extend_from_slice(&[0, 0, 0, 26]);
    expected.extend_from_slice(b"alice");
    expected.extend_from_slice(b"hello");
    expected.extend_from_slice(b"2024-01-02 03:04:05 +00:00");
    assert_eq!(frame, expected);
    assert_eq!(frame.len(), HEADER_LEN + 5 + 5 + 26);
    assert_eq!(decode(&frame), Some(hello()));
}

#[test]
fn frame_lengths_are_big_endian() {
    let message = RawMessage {
        sender: "s".repeat(258),
        message: vec![0xab; 65_537],
        time: String::new(),
    };
    let frame = encode(&message).expect("frame");
    assert_eq!(&frame[4..8], &[0, 0, 1, 2]);
    assert_eq!(&frame[8..12], &[0, 1, 0, 1]);
    assert_eq!(&frame[12..16], &[0, 0, 0, 0]);
    assert_eq!(decode(&frame), Some(message));
}

#[test]
fn frame_of_an_empty_message_is_the_header() {
    let empty = RawMessage { sender: String::new(), message: Vec::new(), time: String::new() };
    let frame = encode(&empty).expect("frame");
    assert_eq!(frame, b"CRIM\0\0\0\0\0\0\0\0\0\0\0\0".to_vec());
    assert_eq!(decode(&frame), Some(empty));
}

#[test]
fn decode_rejects_what_is_no_frame() {
    let frame = encode(&hello()).expect("frame");
    assert_eq!(decode(&[]), None);
    assert_eq!(decode(&frame[..15]), None);
    // Too short and too long for the lengths in the header.
    assert_eq!(decode(&frame[..frame.len() - 1]), None);
    let mut longer = frame.clone();
    longer.push(0);
    assert_eq!(decode(&longer), None);
    // A wrong magic number.
    let mut bad = frame.clone();
    bad[0] = b'X';
    assert_eq!(decode(&bad), None);
    // One length changed on its own.
    for at in 4..16 {
        let mut bad = frame.clone();
        bad[at] ^= 1;
        assert_eq!(decode(&bad), None);
    }
    // A sender that is not UTF-8.
    let mut bad = frame.clone();
    bad[16] = 0xff;
    assert_eq!(decode(&bad), None);
    // A timestamp that is not UTF-8.
    let mut bad = frame.clone();
    let last = bad.len() - 1;
    bad[last] = 0xff;
    assert_eq!(decode(&bad), None);
    // The content may hold any byte.
    let mut fine = frame.clone();
    fine[21] = 0xff;
    assert_eq!(decode(&fine).map(|m| m.message), Some(vec![0xff, b'e', b'l', b'l', b'o']));
}

#[test]
fn encrypt_then_decrypt_gives_the_message_back() {
    let key = [7u8; 32];
    let stored = encrypt(&hello(), &key).expect("encrypt");
    assert_eq!(decrypt(&stored, &key), Ok(hello()));
    // Sixteen bytes of vector, then the padded frame.
    assert_eq!(stored.data.len(), 16 + 64);
}

#[test]
fn encryption_draws_a_fresh_vector() {
    let key = [7u8; 32];
    let one = encrypt(&hello(), &key).expect("encrypt");
    let two = encrypt(&hello(), &key).expect("encrypt");
    assert_ne!(one.data[..16], two.data[..16]);
    assert_ne!(one, two);
}

#[test]
fn encrypt_with_iv_is_aes_256_cbc_behind_the_vector() {
    let key = [7u8; 32];
    let iv = [9u8; 16];
    let stored = encrypt_with_iv(&hello(), &key, &iv).expect("encrypt");
    let frame = encode(&hello()).unwrap();
    let body =
        openssl::symm::encrypt(openssl::symm::Cipher::aes_256_cbc(), &key, Some(&iv), &frame)
            .unwrap();
    let mut expected = iv.to_vec();
    expected.extend_from_slice(&body);
    assert_eq!(stored.data, expected);
    assert_eq!(encrypt_with_iv(&hello(), &key, &iv), Ok(stored));
}

#[test]
fn encrypt_refuses_keys_and_vectors_of_the_wrong_length() {
    assert_eq!(encrypt(&hello(), &[7u8; 16]), Err(Error::EncryptFailure));
    assert_eq!(encrypt(&hello(), &[7u8; 33]), Err(Error::EncryptFailure));
    assert_eq!(encrypt(&hello(), &[]), Err(Error::EncryptFailure));
    assert_eq!(encrypt_with_iv(&hello(), &[7u8; 32], &[9u8; 15]), Err(Error::EncryptFailure));
    assert_eq!(encrypt_with_iv(&hello(), &[7u8; 32], &[9u8; 17]), Err(Error::EncryptFailure));
}

#[test]
fn decrypt_fails_as_one() {
    let key = [7u8; 32];
    let stored = encrypt(&hello(), &key).expect("encrypt");
    assert_eq!(decrypt(&stored, &[8u8; 32]), Err(Error::DecryptFailure));
    assert_eq!(decrypt(&stored, &[7u8; 16]), Err(Error::DecryptFailure));
    assert_eq!(decrypt(&EncryptedMessage { data: Vec::new() }, &key), Err(Error::DecryptFailure));
    assert_eq!(
        decrypt(&EncryptedMessage { data: stored.data[..16].to_vec() }, &key),
        Err(Error::DecryptFailure)
    );
    assert_eq!(
        decrypt(&EncryptedMessage { data: stored.data[..stored.data.len() - 1].to_vec() }, &key),
        Err(Error::DecryptFailure)
    );
    // Well encrypted, but no frame inside.
    let iv = [9u8; 16];
    let body = openssl::symm::encrypt(
        openssl::symm::Cipher::aes_256_cbc(),
        &key,
        Some(&iv),
        b"{\"sender\":\"alice\"}",
    )
    .unwrap();
    let mut data = iv.to_vec();
    data.extend_from_slice(&body);
    assert_eq!(decrypt(&EncryptedMessage { data }, &key), Err(Error::DecryptFailure));
}

#[test]
fn a_flipped_byte_in_the_vector_or_the_header_block_is_caught() {
    let key = [7u8; 32];
    let stored = encrypt_with_iv(&hello(), &key, &[9u8; 16]).expect("encrypt");
    // A flip in the vector flips the same bit of the frame's header; a flip
    // in the first block of ciphertext scrambles the header.
    for at in 0..32 {
        for bit in [0x01u8, 0x80u8] {
            let mut data = stored.data.clone();
            data[at] ^= bit;
            assert_eq!(decrypt(&EncryptedMessage { data }, &key), Err(Error::DecryptFailure));
        }
    }
}

#[test]
fn a_flipped_byte_never_yields_the_message_that_was_sent() {
    let key = [7u8; 32];
    let stored = encrypt_with_iv(&hello(), &key, &[9u8; 16]).expect("encrypt");
    for at in 0..stored.data.len() {
        let mut data = stored.data.clone();
        data[at] ^= 0x55;
        match decrypt(&EncryptedMessage { data }, &key) {
            Err(e) => assert_eq!(e, Error::DecryptFailure),
            Ok(message) => assert_ne!(message, hello()),
        }
    }
}

#[test]
fn cbc_alone_does_not_authenticate_the_content() {
    let key = [7u8; 32];
    let message = RawMessage {
        sender: "alice".to_string(),
        message: vec![b'x'; 80],
        time: "now".to_string(),
    };
    let stored = encrypt_with_iv(&message, &key, &[9u8; 16]).expect("encrypt");
    // The third block of ciphertext and the one behind it cover content only.
    let mut data = stored.data.clone();
    data[16 + 2 * 16 + 3] ^= 0x01;
    let read = decrypt(&EncryptedMessage { data }, &key).expect("still a frame");
    assert_eq!(read.sender, message.sender);
    assert_eq!(read.time, message.time);
    assert_eq!(read.message.len(), message.message.len());
    assert_ne!(read.message, message.message);
}
