//! Tests of the one-call interface and of the error taxonomy.

use cryptostream::engine::key_len;
use cryptostream::engine::iv_len;
use cryptostream::engine::CipherKind;
use cryptostream::error::Error;
use cryptostream::oneshot::decrypt_all;
use cryptostream::oneshot::encrypt_all;
use cryptostream::oneshot::encrypt_then_decrypt;
use cryptostream::read::Decryptor;
use cryptostream::source::SliceSource;

fn key_for(kind: CipherKind) -> Vec<u8> {
    (0..key_len(kind) as u8).collect()
}

fn iv_for(kind: CipherKind) -> Vec<u8> {
    (200..200 + iv_len(kind) as u16).map(|b| (b % 256) as u8).collect()
}

#[test]
fn parameter_lengths() {
    assert_eq!(key_len(CipherKind::Aes128Cbc), 16);
    assert_eq!(key_len(CipherKind::Aes192Cbc), 24);
    assert_eq!(key_len(CipherKind::Aes256Cbc), 32);
    assert_eq!(iv_len(CipherKind::Aes128Cbc), 16);
    assert_eq!(iv_len(CipherKind::Aes192Cbc), 16);
    assert_eq!(iv_len(CipherKind::Aes256Cbc), 16);
}

#[test]
fn round_trips_across_sizes_and_ciphers() {
    let kinds = [CipherKind::Aes128Cbc, CipherKind::Aes192Cbc, CipherKind::Aes256Cbc];
    let sizes = [0usize, 1, 5, 15, 16, 17, 31, 32, 1000];
    for kind in kinds {
        for n in sizes {
            let data: Vec<u8> = (0..n).map(|i| (i * 7 % 256) as u8).collect();
            let back = encrypt_then_decrypt(kind, &key_for(kind), &iv_for(kind), data.clone())
                .expect("round trip failed");
            assert_eq!(back, data);
        }
    }
}

#[test]
fn empty_input_still_produces_padding_block() {
    let kind = CipherKind::Aes128Cbc;
    let ciphertext = encrypt_all(kind, &key_for(kind), &iv_for(kind), Vec::new())
        .expect("encrypt empty");
    // finalize-only output: exactly one padding block
    assert_eq!(ciphertext.len(), 16);
    let back = decrypt_all(kind, &key_for(kind), &iv_for(kind), ciphertext)
        .expect("decrypt empty");
    assert!(back.is_empty());
}

#[test]
fn ciphertext_length_follows_padding_rule() {
    let kind = CipherKind::Aes256Cbc;
    for n in 0usize..40 {
        let data: Vec<u8> = vec![0xA5; n];
        let c = encrypt_all(kind, &key_for(kind), &iv_for(kind), data).expect("encrypt");
        assert_eq!(c.len(), n + 16 - n % 16, "bad length for input of {} bytes", n);
    }
}

#[test]
fn wrong_key_length_is_a_config_error() {
    let kind = CipherKind::Aes128Cbc;
    let short_key: Vec<u8> = vec![1; 15];
    let long_key: Vec<u8> = vec![1; 32];
    assert_eq!(
        encrypt_all(kind, &short_key, &iv_for(kind), b"x".to_vec()),
        Err(Error::Config)
    );
    assert_eq!(
        encrypt_all(kind, &long_key, &iv_for(kind), b"x".to_vec()),
        Err(Error::Config)
    );
}

#[test]
fn wrong_iv_length_is_a_config_error() {
    let kind = CipherKind::Aes256Cbc;
    let short_iv: Vec<u8> = vec![9; 8];
    let long_iv: Vec<u8> = vec![9; 17];
    assert_eq!(
        encrypt_all(kind, &key_for(kind), &short_iv, b"x".to_vec()),
        Err(Error::Config)
    );
    assert_eq!(
        decrypt_all(kind, &key_for(kind), &long_iv, vec![0; 16]),
        Err(Error::Config)
    );
}

#[test]
fn corrupt_ciphertext_is_a_cipher_error_and_poisons() {
    let kind = CipherKind::Aes128Cbc;
    let mut ciphertext = encrypt_all(kind, &key_for(kind), &iv_for(kind), vec![7u8; 16])
        .expect("encrypt");
    assert_eq!(ciphertext.len(), 32);
    // a ciphertext that is not block-aligned fails the finalize step
    ciphertext.truncate(31);
    assert_eq!(
        decrypt_all(kind, &key_for(kind), &iv_for(kind), ciphertext.clone()),
        Err(Error::Cipher)
    );

    // the streaming decryptor reports the same failure and stays poisoned
    let mut dec = Decryptor::new(
        SliceSource::new(ciphertext),
        kind,
        &key_for(kind),
        &iv_for(kind),
    )
    .expect("decryptor");
    let mut saw_cipher_error = false;
    for _ in 0..8 {
        match dec.read(64) {
            Ok(_) => {},
            Err(e) => {
                assert_eq!(e, Error::Cipher);
                saw_cipher_error = true;
                break;
            },
        }
    }
    assert!(saw_cipher_error);
    assert_eq!(dec.read(64), Err(Error::Cipher));
    assert_eq!(dec.read(64), Err(Error::Cipher));
}

#[test]
fn decrypt_all_matches_openssl() {
    let kind = CipherKind::Aes192Cbc;
    let plain = b"exact expected value check".to_vec();
    let ciphertext = openssl::symm::encrypt(
        openssl::symm::Cipher::aes_192_cbc(),
        &key_for(kind),
        Some(&iv_for(kind)),
        &plain,
    )
    .expect("openssl encrypt");
    let back = decrypt_all(kind, &key_for(kind), &iv_for(kind), ciphertext).expect("decrypt");
    assert_eq!(back, plain);
}
