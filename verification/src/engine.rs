//! The block cipher engine: a thin, trusted boundary around OpenSSL's
//! symmetric `Crypter`, together with the names that the rest of the crate
//! uses to speak about what the engine produces.
//!
//! A block cipher engine is stateful: bytes fed through `update` may come
//! back immediately, stay buffered inside the engine until a full block is
//! available, or come back only from the mandatory final `finalize` call,
//! which flushes the last block and applies or removes padding. For a fixed
//! cipher, direction, key and IV, the bytes the engine has emitted are a
//! function of the bytes fed so far alone — OpenSSL's EVP update emits every
//! complete block as soon as it can — and the contracts below say exactly
//! that, through the uninterpreted names `updates_out` and `finish_out`.

use vstd::prelude::*;


verus! {

/// The symmetric ciphers the crate can drive. All of them are block ciphers
/// with a 16-byte block and a 16-byte IV in CBC mode with PKCS#7 padding;
/// they differ in key length.
#[derive(Clone, Copy, PartialEq, Eq, Structural, Debug)]
pub enum CipherKind {
    Aes128Cbc,
    Aes192Cbc,
    Aes256Cbc,
}

/// The key length, in bytes, that `kind` demands.
pub open spec fn spec_key_len(kind: CipherKind) -> nat {
    match kind {
        CipherKind::Aes128Cbc => 16,
        CipherKind::Aes192Cbc => 24,
        CipherKind::Aes256Cbc => 32,
    }
}

/// The IV length, in bytes, that `kind` demands.
pub open spec fn spec_iv_len(kind: CipherKind) -> nat {
    16
}

/// The key length, in bytes, that `kind` demands.
pub fn key_len(kind: CipherKind) -> (n: usize)
    ensures
        n == spec_key_len(kind),
{
    match kind {
        CipherKind::Aes128Cbc => 16,
        CipherKind::Aes192Cbc => 24,
        CipherKind::Aes256Cbc => 32,
    }
}

/// The IV length, in bytes, that `kind` demands.
pub fn iv_len(kind: CipherKind) -> (n: usize)
    ensures
        n == spec_iv_len(kind),
{
    16
}

/// Key and IV lengths above this bound are never valid for any cipher here,
/// and are rejected before they reach the engine.
pub const MAX_PARAM_LEN: usize = 4096;

/// A bound on how many bytes may be fed to the engine in one update call.
pub const MAX_UPDATE_LEN: usize = 1048576;

/// The bytes that the engine's update calls have emitted, in order, after
/// the bytes `fed` have been fed to a cipher of this `kind`, direction `enc`,
/// key and IV — a function of those arguments alone, independent of how
/// `fed` was split across calls.
pub uninterp spec fn updates_out(
    kind: CipherKind,
    enc: bool,
    key: Seq<u8>,
    iv: Seq<u8>,
    fed: Seq<u8>,
) -> Seq<u8>;

/// The bytes that the engine's finalize call emits after the bytes `fed`
/// have been fed to a cipher of this `kind`, direction `enc`, key and IV.
pub uninterp spec fn finish_out(
    kind: CipherKind,
    enc: bool,
    key: Seq<u8>,
    iv: Seq<u8>,
    fed: Seq<u8>,
) -> Seq<u8>;

/// Everything the engine emits for the input `data`: the update output
/// followed by the finalize output. For `enc == true` this is the full
/// ciphertext of `data`; for `enc == false`, the full plaintext of it.
pub open spec fn transform(
    kind: CipherKind,
    enc: bool,
    key: Seq<u8>,
    iv: Seq<u8>,
    data: Seq<u8>,
) -> Seq<u8> {
    updates_out(kind, enc, key, iv, data) + finish_out(kind, enc, key, iv, data)
}

#[verifier::external_type_specification]
#[verifier::external_body]
pub struct ExCrypter(openssl::symm::Crypter);

#[verifier::external_type_specification]
#[verifier::external_body]
pub struct ExErrorStack(openssl::error::ErrorStack);

/// The ghost record of what an engine is and what it has been fed.
pub(crate) struct EngineMeta {
    pub kind: CipherKind,
    pub enc: bool,
    pub key: Seq<u8>,
    pub iv: Seq<u8>,
    pub fed: Seq<u8>,
    pub done: bool,
}

/// One block cipher engine: an OpenSSL `Crypter` fixed to a cipher,
/// direction, key and IV at construction, fed through `update`, and closed
/// by exactly one `finalize`.
pub(crate) struct Engine {
    crypter: openssl::symm::Crypter,
    meta: Ghost<EngineMeta>,
}

/// Relies on `openssl::symm::Crypter::new`: initialising an AES-CBC context
/// fails whenever the key length differs from the cipher's fixed key size,
/// and a fresh context has been fed nothing, so its update calls have
/// emitted nothing. The IV length is a precondition, not a result: the
/// context cannot be relied on to reject a mismatched IV buffer on its own
/// (depending on the linked library it panics on a short one or accepts a
/// long one and uses its prefix), so the caller checks the IV length
/// before coming here.
#[verifier::external_body]
fn crypter_new(kind: CipherKind, enc: bool, key: &Vec<u8>, iv: &Vec<u8>) -> (r: Result<
    openssl::symm::Crypter,
    openssl::error::ErrorStack,
>)
    requires
        key@.len() <= MAX_PARAM_LEN,
        iv@.len() == spec_iv_len(kind),
    ensures
        r is Ok ==> key@.len() == spec_key_len(kind) && updates_out(
            kind,
            enc,
            key@,
            iv@,
            Seq::<u8>::empty(),
        ) === Seq::<u8>::empty(),
{
    let cipher = match kind {
        CipherKind::Aes128Cbc => openssl::symm::Cipher::aes_128_cbc(),
        CipherKind::Aes192Cbc => openssl::symm::Cipher::aes_192_cbc(),
        CipherKind::Aes256Cbc => openssl::symm::Cipher::aes_256_cbc(),
    };
    let mode = if enc {
        openssl::symm::Mode::Encrypt
    } else {
        openssl::symm::Mode::Decrypt
    };
    openssl::symm::Crypter::new(cipher, mode, key.as_slice(), Some(iv.as_slice()))
}

impl Engine {
    /// The cipher this engine was built for.
    pub closed spec fn kind(&self) -> CipherKind {
        self.meta@.kind
    }

    /// True if this engine encrypts, false if it decrypts.
    pub closed spec fn enc(&self) -> bool {
        self.meta@.enc
    }

    /// The key this engine was built with.
    pub closed spec fn key(&self) -> Seq<u8> {
        self.meta@.key
    }

    /// The IV this engine was built with.
    pub closed spec fn iv(&self) -> Seq<u8> {
        self.meta@.iv
    }

    /// All bytes fed to this engine so far, in order.
    pub closed spec fn fed(&self) -> Seq<u8> {
        self.meta@.fed
    }

    /// True once `finalize` has succeeded; no call is allowed after that.
    pub closed spec fn done(&self) -> bool {
        self.meta@.done
    }

    /// True if the engine's fixed parameters are those given.
    pub open spec fn is_for(&self, kind: CipherKind, enc: bool, key: Seq<u8>, iv: Seq<u8>) -> bool {
        self.kind() == kind && self.enc() == enc && self.key() == key && self.iv() == iv
    }

    /// Builds an engine for the given cipher, direction, key and IV. The
    /// caller supplies an IV of the exact length `kind` demands; the key
    /// length is validated by the underlying context, which refuses any
    /// wrong one.
    pub(crate) fn new(kind: CipherKind, enc: bool, key: &Vec<u8>, iv: &Vec<u8>) -> (r: Result<
        Engine,
        openssl::error::ErrorStack,
    >)
        requires
            key@.len() <= MAX_PARAM_LEN,
            iv@.len() == spec_iv_len(kind),
        ensures
            r matches Ok(e) ==> e.is_for(kind, enc, key@, iv@) && e.fed() === Seq::<u8>::empty()
                && !e.done() && key@.len() == spec_key_len(kind) && iv@.len() == spec_iv_len(kind)
                && updates_out(kind, enc, key@, iv@, Seq::<u8>::empty()) === Seq::<u8>::empty(),
    {
        match crypter_new(kind, enc, key, iv) {
            Ok(crypter) => Ok(
                Engine {
                    crypter,
                    meta: Ghost(
                        EngineMeta {
                            kind,
                            enc,
                            key: key@,
                            iv: iv@,
                            fed: Seq::empty(),
                            done: false,
                        },
                    ),
                },
            ),
            Err(e) => Err(e),
        }
    }

    /// Relies on `openssl::symm::Crypter::update`: feeds `input` through the
    /// cipher and returns the complete blocks the engine can emit. The bytes
    /// emitted across all updates so far are a function of the parameters
    /// and of the total bytes fed alone, so the output of this call is the
    /// difference between that function's value after and before the call.
    #[verifier::external_body]
    pub(crate) fn update(&mut self, input: &Vec<u8>) -> (r: Result<Vec<u8>, openssl::error::ErrorStack>)
        requires
            !old(self).done(),
            input@.len() <= MAX_UPDATE_LEN,
        ensures
            r matches Ok(out) ==> final(self).is_for(
                old(self).kind(),
                old(self).enc(),
                old(self).key(),
                old(self).iv(),
            ) && !final(self).done() && final(self).fed() === old(self).fed() + input@
                && updates_out(
                old(self).kind(),
                old(self).enc(),
                old(self).key(),
                old(self).iv(),
                old(self).fed() + input@,
            ) === updates_out(
                old(self).kind(),
                old(self).enc(),
                old(self).key(),
                old(self).iv(),
                old(self).fed(),
            ) + out@,
            r is Err ==> final(self).is_for(
                old(self).kind(),
                old(self).enc(),
                old(self).key(),
                old(self).iv(),
            ),
    {
        let mut out = vec![0u8; input.len() + 16];
        let n = self.crypter.update(input.as_slice(), out.as_mut_slice())?;
        out.truncate(n);
        Ok(out)
    }

    /// Relies on `openssl::symm::Crypter::finalize`: flushes the engine's
    /// last block and applies or removes padding; nothing may be fed
    /// afterwards. For decryption it also relies on OpenSSL's CBC/PKCS#7
    /// behaviour in both directions: a ciphertext produced by encrypting
    /// some input under the same cipher, key and IV finalizes successfully,
    /// and the update output and the finalize output together restore that
    /// input; and finalize succeeds only on such a ciphertext — the padding
    /// check passes exactly when the fed bytes are block-aligned and their
    /// raw block decryption ends in valid padding, which makes them the
    /// encryption of the unpadded remainder.
    #[verifier::external_body]
    pub(crate) fn finalize(&mut self) -> (r: Result<Vec<u8>, openssl::error::ErrorStack>)
        requires
            !old(self).done(),
        ensures
            r matches Ok(out) ==> final(self).is_for(
                old(self).kind(),
                old(self).enc(),
                old(self).key(),
                old(self).iv(),
            ) && final(self).done() && final(self).fed() === old(self).fed() && out@
                === finish_out(
                old(self).kind(),
                old(self).enc(),
                old(self).key(),
                old(self).iv(),
                old(self).fed(),
            ),
            !old(self).enc() ==> forall|p: Seq<u8>|
                old(self).fed() == transform(old(self).kind(), true, old(self).key(), old(self).iv(), p)
                    ==> (r matches Ok(out) && updates_out(
                    old(self).kind(),
                    false,
                    old(self).key(),
                    old(self).iv(),
                    old(self).fed(),
                ) + out@ === p),
            !old(self).enc() && r is Ok ==> exists|p: Seq<u8>|
                old(self).fed() == transform(
                    old(self).kind(),
                    true,
                    old(self).key(),
                    old(self).iv(),
                    p,
                ),
            r is Err ==> final(self).is_for(
                old(self).kind(),
                old(self).enc(),
                old(self).key(),
                old(self).iv(),
            ),
    {
        let mut out = vec![0u8; 16];
        let n = self.crypter.finalize(out.as_mut_slice())?;
        out.truncate(n);
        Ok(out)
    }
}

} // verus!
