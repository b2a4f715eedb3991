//! End-to-end tests of the streaming adapters: round trips, streaming
//! equivalence, end-of-stream behaviour and source hand-back.

use cryptostream::adapter::Adapter;
use cryptostream::engine::CipherKind;
use cryptostream::error::Error;
use cryptostream::oneshot::decrypt_all;
use cryptostream::oneshot::encrypt_all;
use cryptostream::read::Decryptor;
use cryptostream::read::Encryptor;
use cryptostream::source::FailingSource;
use cryptostream::source::SliceSource;

fn key16() -> Vec<u8> {
    (0u8..16).collect()
}

fn key24() -> Vec<u8> {
    (0u8..24).collect()
}

fn key32() -> Vec<u8> {
    (0u8..32).collect()
}

fn iv16() -> Vec<u8> {
    (100u8..116).collect()
}

fn drain_encryptor(enc: &mut Encryptor<SliceSource>, step: usize) -> Vec<u8> {
    let mut out = Vec::new();
    loop {
        let chunk = enc.read(step).expect("read failed");
        if chunk.is_empty() {
            return out;
        }
        out.extend_from_slice(&chunk);
    }
}

fn drain_decryptor(dec: &mut Decryptor<SliceSource>, step: usize) -> Vec<u8> {
    let mut out = Vec::new();
    loop {
        let chunk = dec.read(step).expect("read failed");
        if chunk.is_empty() {
            return out;
        }
        out.extend_from_slice(&chunk);
    }
}

#[test]
fn hello_chunked_round_trip() {
    let plain = b"hello".to_vec();
    let mut enc = Encryptor::new(
        SliceSource::new(plain.clone()),
        CipherKind::Aes128Cbc,
        &key16(),
        &iv16(),
    )
    .expect("encryptor");
    // read the ciphertext two bytes at a time
    let ciphertext = drain_encryptor(&mut enc, 2);
    // 5 bytes pad to exactly one 16-byte block
    assert_eq!(ciphertext.len(), 16);
    assert_ne!(&ciphertext[..5], &plain[..]);

    // decrypt it seven bytes at a time
    let mut dec = Decryptor::new(
        SliceSource::new(ciphertext),
        CipherKind::Aes128Cbc,
        &key16(),
        &iv16(),
    )
    .expect("decryptor");
    let recovered = drain_decryptor(&mut dec, 7);
    assert_eq!(recovered, plain);
}

#[test]
fn matches_openssl_one_shot() {
    let plain = b"Some Stream of Crypto Text".to_vec();
    let ours = encrypt_all(CipherKind::Aes128Cbc, &key16(), &iv16(), plain.clone())
        .expect("encrypt_all");
    let theirs = openssl::symm::encrypt(
        openssl::symm::Cipher::aes_128_cbc(),
        &key16(),
        Some(&iv16()),
        &plain,
    )
    .expect("openssl encrypt");
    assert_eq!(ours, theirs);

    let back = decrypt_all(CipherKind::Aes128Cbc, &key16(), &iv16(), ours).expect("decrypt_all");
    assert_eq!(back, plain);
}

#[test]
fn streaming_equivalence_across_read_sizes() {
    let plain: Vec<u8> = (0..257u32).map(|i| (i % 251) as u8).collect();
    let whole = encrypt_all(CipherKind::Aes256Cbc, &key32(), &iv16(), plain.clone())
        .expect("encrypt_all");
    for step in [1usize, 3, 7, 16, 1024] {
        let mut enc = Encryptor::new(
            SliceSource::new(plain.clone()),
            CipherKind::Aes256Cbc,
            &key32(),
            &iv16(),
        )
        .expect("encryptor");
        let streamed = drain_encryptor(&mut enc, step);
        assert_eq!(streamed, whole, "read size {} changed the stream", step);
    }
}

#[test]
fn end_of_stream_is_idempotent() {
    let plain = b"idempotence".to_vec();
    let mut enc = Encryptor::new(
        SliceSource::new(plain),
        CipherKind::Aes128Cbc,
        &key16(),
        &iv16(),
    )
    .expect("encryptor");
    let _ = drain_encryptor(&mut enc, 4);
    for _ in 0..5 {
        let chunk = enc.read(64).expect("read after end");
        assert!(chunk.is_empty());
    }
}

#[test]
fn partial_reads_lose_nothing() {
    let plain: Vec<u8> = (0..100u8).collect();
    let ciphertext = encrypt_all(CipherKind::Aes128Cbc, &key16(), &iv16(), plain.clone())
        .expect("encrypt_all");
    let mut dec = Decryptor::new(
        SliceSource::new(ciphertext),
        CipherKind::Aes128Cbc,
        &key16(),
        &iv16(),
    )
    .expect("decryptor");
    // one large read fills the buffer; tiny reads must then drain it
    // byte-for-byte, in order
    let first = dec.read(3).expect("first read");
    let mut recovered = first.clone();
    loop {
        let chunk = dec.read(1).expect("tiny read");
        if chunk.is_empty() {
            break;
        }
        assert_eq!(chunk.len(), 1);
        recovered.extend_from_slice(&chunk);
    }
    assert_eq!(recovered, plain);
}

#[test]
fn zero_sized_read_is_not_end_of_stream() {
    let plain = b"zero".to_vec();
    let mut enc = Encryptor::new(
        SliceSource::new(plain.clone()),
        CipherKind::Aes128Cbc,
        &key16(),
        &iv16(),
    )
    .expect("encryptor");
    let none = enc.read(0).expect("zero read");
    assert!(none.is_empty());
    let rest = drain_encryptor(&mut enc, 5);
    assert_eq!(rest.len(), 16);
}

#[test]
fn finish_before_any_read_leaves_source_untouched() {
    let data = b"not yet consumed".to_vec();
    let enc = Encryptor::new(
        SliceSource::new(data.clone()),
        CipherKind::Aes128Cbc,
        &key16(),
        &iv16(),
    )
    .expect("encryptor");
    // construction is lazy: no byte was pulled, so the source comes back whole
    let source = enc.finish();
    assert_eq!(source.rest(), data);
}

#[test]
fn finish_after_full_drain_returns_spent_source() {
    let data = b"all of this is consumed".to_vec();
    let mut enc = Encryptor::new(
        SliceSource::new(data),
        CipherKind::Aes128Cbc,
        &key16(),
        &iv16(),
    )
    .expect("encryptor");
    let _ = drain_encryptor(&mut enc, 9);
    let source = enc.finish();
    assert!(source.rest().is_empty());
}

#[test]
fn failing_source_errors_on_first_read() {
    let mut enc = Encryptor::new(FailingSource::new(), CipherKind::Aes128Cbc, &key16(), &iv16())
        .expect("encryptor");
    let first = enc.read(32);
    assert_eq!(first, Err(Error::Io));
    // an I/O failure does not poison the stream: the same error comes again
    let second = enc.read(32);
    assert_eq!(second, Err(Error::Io));
}

#[test]
fn failing_source_errors_through_decryptor_too() {
    let mut dec = Decryptor::new(FailingSource::new(), CipherKind::Aes256Cbc, &key32(), &iv16())
        .expect("decryptor");
    assert_eq!(dec.read(8), Err(Error::Io));
}

#[test]
fn large_payload_round_trip_exercises_read_ahead() {
    // longer than the read-ahead buffer, so the source is refilled many times
    let plain: Vec<u8> = (0..20000u32).map(|i| (i * 31 % 256) as u8).collect();
    let mut enc = Encryptor::new(
        SliceSource::new(plain.clone()),
        CipherKind::Aes192Cbc,
        &key24(),
        &iv16(),
    )
    .expect("encryptor");
    let ciphertext = drain_encryptor(&mut enc, 1000);
    assert_eq!(ciphertext.len(), 20000 + 16 - 20000 % 16);

    let mut dec = Decryptor::new(
        SliceSource::new(ciphertext),
        CipherKind::Aes192Cbc,
        &key24(),
        &iv16(),
    )
    .expect("decryptor");
    let recovered = drain_decryptor(&mut dec, 333);
    assert_eq!(recovered, plain);
}

#[test]
fn adapter_drives_the_core_directly() {
    let plain = b"driven without the read-ahead layer".to_vec();
    let mut enc = Adapter::new_encrypt(
        SliceSource::new(plain.clone()),
        CipherKind::Aes128Cbc,
        &key16(),
        &iv16(),
    )
    .expect("adapter");
    assert!(!enc.is_done());
    let ciphertext = enc.read_to_end().expect("read_to_end");
    assert_eq!(ciphertext.len(), plain.len() + 16 - plain.len() % 16);
    assert!(enc.is_done());
    assert!(enc.read(10).expect("read after end").is_empty());
    let spent = enc.finish();
    assert!(spent.rest().is_empty());

    let mut dec = Adapter::new_decrypt(
        SliceSource::new(ciphertext),
        CipherKind::Aes128Cbc,
        &key16(),
        &iv16(),
    )
    .expect("adapter");
    let recovered = dec.read_to_end().expect("read_to_end");
    assert_eq!(recovered, plain);
}
