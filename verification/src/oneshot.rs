//! One-call encryption and decryption of in-memory data, built on the
//! streaming adapter, and the round-trip law that ties the two directions
//! together.

use vstd::prelude::*;

use crate::adapter::Adapter;
use crate::adapter::lemma_decrypt_restores;
use crate::adapter::lemma_drained_is_transform;
use crate::adapter::lemma_finalized_means_valid_ciphertext;
use crate::engine::CipherKind;
use crate::engine::spec_iv_len;
use crate::engine::spec_key_len;
use crate::engine::transform;
use crate::error::Error;
use crate::source::SliceSource;

verus! {

/// Encrypts all of `data` and returns the whole ciphertext: the encryption
/// transform of `data` under the given cipher, key and IV. Fails with a
/// configuration error exactly when the key or IV length is wrong, and with
/// a cipher error only if the engine itself fails.
pub fn encrypt_all(kind: CipherKind, key: &Vec<u8>, iv: &Vec<u8>, data: Vec<u8>) -> (r: Result<
    Vec<u8>,
    Error,
>)
    ensures
        r matches Ok(c) ==> key@.len() == spec_key_len(kind) && iv@.len() == spec_iv_len(kind)
            && c@ === transform(kind, true, key@, iv@, data@),
        key@.len() != spec_key_len(kind) || iv@.len() != spec_iv_len(kind) ==> r === Err::<
            Vec<u8>,
            Error,
        >(Error::Config),
{
    let ghost d0: Seq<u8> = data@;
    let src = SliceSource::new(data);
    let mut ad = match Adapter::<SliceSource>::new_encrypt(src, kind, key, iv) {
        Ok(a) => a,
        Err(e) => {
            return Err(e);
        },
    };
    match ad.read_to_end() {
        Ok(out) => {
            proof {
                lemma_drained_is_transform(&ad);
                assert(ad.fed() =~= d0);
                assert(out@ =~= transform(kind, true, key@, iv@, d0));
            }
            Ok(out)
        },
        Err(e) => Err(e),
    }
}

/// Decrypts all of `data` and returns the whole plaintext: the decryption
/// transform of `data` under the given cipher, key and IV. It succeeds only
/// when `data` is a ciphertext that encryption under the same parameters
/// produces from some input, and then the result is exactly that input; an
/// invalid ciphertext surfaces a cipher error, never made-up bytes. Fails
/// with a configuration error exactly when the key or IV length is wrong.
pub fn decrypt_all(kind: CipherKind, key: &Vec<u8>, iv: &Vec<u8>, data: Vec<u8>) -> (r: Result<
    Vec<u8>,
    Error,
>)
    ensures
        r matches Ok(p) ==> key@.len() == spec_key_len(kind) && iv@.len() == spec_iv_len(kind)
            && p@ === transform(kind, false, key@, iv@, data@) && (forall|q: Seq<u8>|
            data@ == transform(kind, true, key@, iv@, q) ==> p@ === q),
        r matches Ok(p) ==> exists|q: Seq<u8>|
            data@ == transform(kind, true, key@, iv@, q) && p@ === q,
        key@.len() != spec_key_len(kind) || iv@.len() != spec_iv_len(kind) ==> r === Err::<
            Vec<u8>,
            Error,
        >(Error::Config),
{
    let ghost d0: Seq<u8> = data@;
    let src = SliceSource::new(data);
    let mut ad = match Adapter::<SliceSource>::new_decrypt(src, kind, key, iv) {
        Ok(a) => a,
        Err(e) => {
            return Err(e);
        },
    };
    match ad.read_to_end() {
        Ok(out) => {
            proof {
                lemma_drained_is_transform(&ad);
                assert(ad.fed() =~= d0);
                assert(out@ =~= transform(kind, false, key@, iv@, d0));
                assert forall|q: Seq<u8>| d0 == transform(kind, true, key@, iv@, q) implies out@
                    === q by {
                    lemma_decrypt_restores(&ad, q);
                }
                lemma_finalized_means_valid_ciphertext(&ad);
                let w: Seq<u8> = choose|q: Seq<u8>|
                    ad.fed() == transform(ad.kind(), true, ad.key(), ad.iv(), q);
                lemma_decrypt_restores(&ad, w);
                assert(d0 == transform(kind, true, key@, iv@, w) && out@ === w);
            }
            Ok(out)
        },
        Err(e) => Err(e),
    }
}

/// Law: decrypting what encryption produced under the same cipher, key and
/// IV restores the original bytes. The call can fail — the engine is
/// fallible — but it can never succeed with different bytes.
pub fn encrypt_then_decrypt(kind: CipherKind, key: &Vec<u8>, iv: &Vec<u8>, data: Vec<u8>) -> (r:
    Result<Vec<u8>, Error>)
    ensures
        r matches Ok(p) ==> p@ === data@,
{
    let ghost d0: Seq<u8> = data@;
    let c = match encrypt_all(kind, key, iv, data) {
        Ok(c) => c,
        Err(e) => {
            return Err(e);
        },
    };
    let ghost c0: Seq<u8> = c@;
    match decrypt_all(kind, key, iv, c) {
        Ok(p) => {
            proof {
                assert(c0 == transform(kind, true, key@, iv@, d0));
            }
            Ok(p)
        },
        Err(e) => Err(e),
    }
}

} // verus!
