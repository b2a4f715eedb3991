//! Read-side stream adapters: encrypt or decrypt what is read.
//!
//! [`Encryptor`] sits atop a plaintext byte source and returns ciphertext
//! from its reads; [`Decryptor`] sits atop a ciphertext source and returns
//! plaintext. Both put the read-ahead layer between the raw source and the
//! buffering cipher adapter, so the adapter never pulls tiny chunks, and
//! both give the raw source back through `finish`.

use vstd::prelude::*;

use crate::adapter::Adapter;
use crate::adapter::lemma_decrypt_restores;
use crate::adapter::lemma_drained_is_transform;
use crate::adapter::lemma_finalized_means_valid_ciphertext;
use crate::engine::CipherKind;
use crate::engine::spec_iv_len;
use crate::engine::spec_key_len;
use crate::engine::transform;
use crate::error::Error;
use crate::source::BufSource;
use crate::source::ByteSource;

verus! {

/// An encrypting stream adapter: reads of it return the ciphertext of the
/// bytes the wrapped source supplies.
pub struct Encryptor<S: ByteSource> {
    inner: Adapter<BufSource<S>>,
}

impl<S: ByteSource> Encryptor<S> {
    /// Well-formed and encrypting.
    pub closed spec fn wf(&self) -> bool {
        self.inner.wf() && self.inner.enc()
    }

    /// The cipher this stream drives.
    pub closed spec fn kind(&self) -> CipherKind {
        self.inner.kind()
    }

    /// The key the stream was built with.
    pub closed spec fn key(&self) -> Seq<u8> {
        self.inner.key()
    }

    /// The IV the stream was built with.
    pub closed spec fn iv(&self) -> Seq<u8> {
        self.inner.iv()
    }

    /// All source bytes fed to the engine so far.
    pub closed spec fn fed(&self) -> Seq<u8> {
        self.inner.fed()
    }

    /// All bytes handed to callers so far.
    pub closed spec fn delivered(&self) -> Seq<u8> {
        self.inner.delivered()
    }

    /// Bytes produced by the engine but not yet read.
    pub closed spec fn buffered(&self) -> Seq<u8> {
        self.inner.buffered()
    }

    /// End of stream: everything has been produced and delivered.
    pub closed spec fn is_exhausted(&self) -> bool {
        self.inner.is_exhausted()
    }

    /// True once an engine failure has poisoned the stream.
    pub closed spec fn poisoned(&self) -> bool {
        self.inner.poisoned()
    }

    /// What the stream as a whole will still consume.
    pub closed spec fn stream_remaining(&self) -> Seq<u8> {
        self.inner.source_remaining()
    }

    /// The raw wrapped source as it stands now.
    pub closed spec fn source_view(&self) -> S {
        self.inner.source_view().inner_view()
    }

    /// Wraps `source` for encryption. Fails with a configuration error
    /// exactly when the key or IV length is wrong for `kind`. No byte is
    /// read from the source here.
    pub fn new(source: S, kind: CipherKind, key: &Vec<u8>, iv: &Vec<u8>) -> (r: Result<
        Encryptor<S>,
        Error,
    >)
        requires
            source.wf(),
        ensures
            r matches Ok(s) ==> s.wf() && s.kind() == kind && s.key() === key@ && s.iv() === iv@
                && s.delivered() === Seq::<u8>::empty() && s.fed() === Seq::<u8>::empty()
                && !s.poisoned() && !s.is_exhausted() && s.stream_remaining() === source.remaining()
                && s.source_view() === source && key@.len() == spec_key_len(kind) && iv@.len()
                == spec_iv_len(kind),
            r matches Err(e) ==> e == Error::Config,
            key@.len() != spec_key_len(kind) || iv@.len() != spec_iv_len(kind) ==> r is Err,
    {
        let buffered_src = BufSource::new(source);
        match Adapter::new_encrypt(buffered_src, kind, key, iv) {
            Ok(a) => Ok(Encryptor { inner: a }),
            Err(e) => Err(e),
        }
    }

    /// Reads up to `want` bytes of ciphertext. An empty result (with
    /// `want > 0`) means end of stream, for this and for every later read;
    /// at that point everything delivered is exactly the transform of
    /// everything the source supplied.
    pub fn read(&mut self, want: usize) -> (r: Result<Vec<u8>, Error>)
        requires
            old(self).wf(),
        ensures
            final(self).wf(),
            final(self).kind() == old(self).kind(),
            final(self).key() === old(self).key(),
            final(self).iv() === old(self).iv(),
            old(self).poisoned() ==> r === Err::<Vec<u8>, Error>(Error::Cipher) && *final(self)
                === *old(self),
            old(self).is_exhausted() ==> r is Ok,
            old(self).buffered().len() > 0 && !old(self).poisoned() ==> r is Ok,
            match r {
                Ok(chunk) => {
                    &&& chunk@.len() <= want
                    &&& !final(self).poisoned()
                    &&& final(self).delivered() === old(self).delivered() + chunk@
                    &&& old(self).fed() + old(self).stream_remaining() === final(self).fed()
                        + final(self).stream_remaining()
                    &&& old(self).fed().len() <= final(self).fed().len()
                    &&& (old(self).is_exhausted() ==> chunk@.len() == 0 && *final(self) === *old(self))
                    &&& (chunk@.len() == 0 && want > 0 ==> final(self).is_exhausted())
                    &&& (old(self).buffered().len() > 0 ==> {
                        &&& chunk@.len() == vstd::math::min(
                            want as int,
                            old(self).buffered().len() as int,
                        )
                        &&& chunk@ === old(self).buffered().take(chunk@.len() as int)
                        &&& final(self).buffered() === old(self).buffered().skip(
                            chunk@.len() as int,
                        )
                        &&& final(self).fed() === old(self).fed()
                        &&& final(self).stream_remaining() === old(self).stream_remaining()
                    })
                    &&& (final(self).is_exhausted() ==> final(self).delivered() === transform(
                        final(self).kind(),
                        true,
                        final(self).key(),
                        final(self).iv(),
                        final(self).fed(),
                    ))
                },
                Err(e) => {
                    &&& (e == Error::Io || e == Error::Cipher)
                    &&& (e == Error::Io ==> final(self).delivered() === old(self).delivered()
                        && final(self).buffered() === old(self).buffered() && !final(self).poisoned()
                        && old(self).fed() + old(self).stream_remaining() === final(self).fed()
                        + final(self).stream_remaining())
                    &&& (e == Error::Cipher ==> final(self).poisoned() && final(self).delivered()
                        === old(self).delivered())
                },
            },
    {
        let r = self.inner.read(want);
        proof {
            if self.inner.is_exhausted() {
                lemma_drained_is_transform(&self.inner);
            }
        }
        r
    }

    /// Hands the raw source back, untouched by this call; the engine and
    /// any unread transformed bytes are discarded. After a full drain the
    /// source has nothing left that the stream swallowed.
    pub fn finish(self) -> (r: S)
        requires
            self.wf(),
        ensures
            r === self.source_view(),
            self.is_exhausted() ==> r.remaining().len() == 0,
    {
        proof {
            if self.is_exhausted() {
                lemma_drained_is_transform(&self.inner);
            }
        }
        let Encryptor { inner } = self;
        let buffered_src = inner.finish();
        buffered_src.into_inner()
    }
}

/// A decrypting stream adapter: reads of it return the plaintext of the
/// bytes the wrapped source supplies.
pub struct Decryptor<S: ByteSource> {
    inner: Adapter<BufSource<S>>,
}

impl<S: ByteSource> Decryptor<S> {
    /// Well-formed and decrypting.
    pub closed spec fn wf(&self) -> bool {
        self.inner.wf() && !self.inner.enc()
    }

    /// The cipher this stream drives.
    pub closed spec fn kind(&self) -> CipherKind {
        self.inner.kind()
    }

    /// The key the stream was built with.
    pub closed spec fn key(&self) -> Seq<u8> {
        self.inner.key()
    }

    /// The IV the stream was built with.
    pub closed spec fn iv(&self) -> Seq<u8> {
        self.inner.iv()
    }

    /// All source bytes fed to the engine so far.
    pub closed spec fn fed(&self) -> Seq<u8> {
        self.inner.fed()
    }

    /// All bytes handed to callers so far.
    pub closed spec fn delivered(&self) -> Seq<u8> {
        self.inner.delivered()
    }

    /// Bytes produced by the engine but not yet read.
    pub closed spec fn buffered(&self) -> Seq<u8> {
        self.inner.buffered()
    }

    /// End of stream: everything has been produced and delivered.
    pub closed spec fn is_exhausted(&self) -> bool {
        self.inner.is_exhausted()
    }

    /// True once an engine failure has poisoned the stream.
    pub closed spec fn poisoned(&self) -> bool {
        self.inner.poisoned()
    }

    /// What the stream as a whole will still consume.
    pub closed spec fn stream_remaining(&self) -> Seq<u8> {
        self.inner.source_remaining()
    }

    /// The raw wrapped source as it stands now.
    pub closed spec fn source_view(&self) -> S {
        self.inner.source_view().inner_view()
    }

    /// Wraps `source` for decryption. Fails with a configuration error
    /// exactly when the key or IV length is wrong for `kind`. No byte is
    /// read from the source here.
    pub fn new(source: S, kind: CipherKind, key: &Vec<u8>, iv: &Vec<u8>) -> (r: Result<
        Decryptor<S>,
        Error,
    >)
        requires
            source.wf(),
        ensures
            r matches Ok(s) ==> s.wf() && s.kind() == kind && s.key() === key@ && s.iv() === iv@
                && s.delivered() === Seq::<u8>::empty() && s.fed() === Seq::<u8>::empty()
                && !s.poisoned() && !s.is_exhausted() && s.stream_remaining() === source.remaining()
                && s.source_view() === source && key@.len() == spec_key_len(kind) && iv@.len()
                == spec_iv_len(kind),
            r matches Err(e) ==> e == Error::Config,
            key@.len() != spec_key_len(kind) || iv@.len() != spec_iv_len(kind) ==> r is Err,
    {
        let buffered_src = BufSource::new(source);
        match Adapter::new_decrypt(buffered_src, kind, key, iv) {
            Ok(a) => Ok(Decryptor { inner: a }),
            Err(e) => Err(e),
        }
    }

    /// Reads up to `want` bytes of plaintext. An empty result (with
    /// `want > 0`) means end of stream, for this and for every later read.
    /// End of stream is reached only when the source supplied a ciphertext
    /// that encryption under the same parameters produces from some input,
    /// and then everything delivered is exactly that input: an invalid
    /// ciphertext surfaces a cipher error instead of being delivered in
    /// full as plaintext.
    #[verifier::rlimit(60)]
    pub fn read(&mut self, want: usize) -> (r: Result<Vec<u8>, Error>)
        requires
            old(self).wf(),
        ensures
            final(self).wf(),
            final(self).kind() == old(self).kind(),
            final(self).key() === old(self).key(),
            final(self).iv() === old(self).iv(),
            old(self).poisoned() ==> r === Err::<Vec<u8>, Error>(Error::Cipher) && *final(self)
                === *old(self),
            old(self).is_exhausted() ==> r is Ok,
            old(self).buffered().len() > 0 && !old(self).poisoned() ==> r is Ok,
            match r {
                Ok(chunk) => {
                    &&& chunk@.len() <= want
                    &&& !final(self).poisoned()
                    &&& final(self).delivered() === old(self).delivered() + chunk@
                    &&& old(self).fed() + old(self).stream_remaining() === final(self).fed()
                        + final(self).stream_remaining()
                    &&& old(self).fed().len() <= final(self).fed().len()
                    &&& (old(self).is_exhausted() ==> chunk@.len() == 0 && *final(self) === *old(self))
                    &&& (chunk@.len() == 0 && want > 0 ==> final(self).is_exhausted())
                    &&& (old(self).buffered().len() > 0 ==> {
                        &&& chunk@.len() == vstd::math::min(
                            want as int,
                            old(self).buffered().len() as int,
                        )
                        &&& chunk@ === old(self).buffered().take(chunk@.len() as int)
                        &&& final(self).buffered() === old(self).buffered().skip(
                            chunk@.len() as int,
                        )
                        &&& final(self).fed() === old(self).fed()
                        &&& final(self).stream_remaining() === old(self).stream_remaining()
                    })
                    &&& (final(self).is_exhausted() ==> final(self).delivered() === transform(
                        final(self).kind(),
                        false,
                        final(self).key(),
                        final(self).iv(),
                        final(self).fed(),
                    ))
                },
                Err(e) => {
                    &&& (e == Error::Io || e == Error::Cipher)
                    &&& (e == Error::Io ==> final(self).delivered() === old(self).delivered()
                        && final(self).buffered() === old(self).buffered() && !final(self).poisoned()
                        && old(self).fed() + old(self).stream_remaining() === final(self).fed()
                        + final(self).stream_remaining())
                    &&& (e == Error::Cipher ==> final(self).poisoned() && final(self).delivered()
                        === old(self).delivered())
                },
            },
            r is Ok && final(self).is_exhausted() ==> forall|p: Seq<u8>|
                final(self).fed() == transform(
                    final(self).kind(),
                    true,
                    final(self).key(),
                    final(self).iv(),
                    p,
                ) ==> final(self).delivered() === p,
            r is Ok && final(self).is_exhausted() ==> exists|p: Seq<u8>|
                final(self).fed() == transform(
                    final(self).kind(),
                    true,
                    final(self).key(),
                    final(self).iv(),
                    p,
                ) && final(self).delivered() === p,
    {
        let r = self.inner.read(want);
        proof {
            if self.inner.is_exhausted() {
                lemma_drained_is_transform(&self.inner);
                assert forall|p: Seq<u8>|
                    self.inner.fed() == transform(
                        self.inner.kind(),
                        true,
                        self.inner.key(),
                        self.inner.iv(),
                        p,
                    ) implies self.inner.delivered() === p by {
                    lemma_decrypt_restores(&self.inner, p);
                }
                lemma_finalized_means_valid_ciphertext(&self.inner);
                let w: Seq<u8> = choose|p: Seq<u8>|
                    self.inner.fed() == transform(
                        self.inner.kind(),
                        true,
                        self.inner.key(),
                        self.inner.iv(),
                        p,
                    );
                lemma_decrypt_restores(&self.inner, w);
            }
        }
        r
    }

    /// Hands the raw source back, untouched by this call; the engine and
    /// any unread transformed bytes are discarded. After a full drain the
    /// source has nothing left that the stream swallowed.
    pub fn finish(self) -> (r: S)
        requires
            self.wf(),
        ensures
            r === self.source_view(),
            self.is_exhausted() ==> r.remaining().len() == 0,
    {
        proof {
            if self.is_exhausted() {
                lemma_drained_is_transform(&self.inner);
            }
        }
        let Decryptor { inner } = self;
        let buffered_src = inner.finish();
        buffered_src.into_inner()
    }
}

} // verus!
