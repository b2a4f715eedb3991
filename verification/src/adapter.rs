//! The buffering cipher adapter: the core of the crate.
//!
//! An [`Adapter`] owns a byte source and a cipher engine. Each read pulls
//! input from the source, feeds it to the engine, accumulates whatever the
//! engine emits in an internal buffer, and serves the caller from the front
//! of that buffer. When the source ends, the engine is finalized exactly
//! once; once the finalize output has been drained, every further read
//! reports end of stream. The adapter reconciles the caller's read sizes
//! with the engine's block-oriented output sizes while losing, duplicating
//! and reordering nothing.

use vstd::prelude::*;

use crate::engine::CipherKind;
use crate::engine::Engine;
use crate::engine::MAX_PARAM_LEN;
use crate::engine::finish_out;
use crate::engine::iv_len;
use crate::engine::spec_iv_len;
use crate::engine::spec_key_len;
use crate::engine::transform;
use crate::engine::updates_out;
use crate::error::Error;
use crate::source::ByteSource;

verus! {

/// How many bytes one pull from the source asks for.
pub const PULL_SIZE: usize = 4096;

/// For a decrypting stream: whatever input the fed bytes were produced from
/// by encryption under the same parameters, the decryption transform of the
/// fed bytes restores that input. (For an encrypting stream this says
/// nothing.)
pub open spec fn decrypt_complete(
    kind: CipherKind,
    enc: bool,
    key: Seq<u8>,
    iv: Seq<u8>,
    fed: Seq<u8>,
) -> bool {
    !enc ==> forall|p: Seq<u8>|
        fed == transform(kind, true, key, iv, p) ==> transform(kind, false, key, iv, fed) == p
}

/// For a decrypting stream: the fed bytes are a ciphertext that encryption
/// under the same parameters produces from some input — the engine
/// finalizes only on such a stream, so an invalid ciphertext can never be
/// delivered in full as if it decrypted cleanly. (For an encrypting stream
/// this says nothing.)
pub open spec fn decrypt_valid(
    kind: CipherKind,
    enc: bool,
    key: Seq<u8>,
    iv: Seq<u8>,
    fed: Seq<u8>,
) -> bool {
    !enc ==> exists|p: Seq<u8>| fed == transform(kind, true, key, iv, p)
}

/// The buffering cipher adapter. See the module documentation.
pub struct Adapter<S: ByteSource> {
    source: S,
    engine: Engine,
    pending: Vec<u8>,
    pos: usize,
    finalized: bool,
    poisoned: bool,
    delivered: Ghost<Seq<u8>>,
}

impl<S: ByteSource> Adapter<S> {
    /// The cipher this adapter drives.
    pub closed spec fn kind(&self) -> CipherKind {
        self.engine.kind()
    }

    /// True if this adapter encrypts, false if it decrypts.
    pub closed spec fn enc(&self) -> bool {
        self.engine.enc()
    }

    /// The key the engine was built with.
    pub closed spec fn key(&self) -> Seq<u8> {
        self.engine.key()
    }

    /// The IV the engine was built with.
    pub closed spec fn iv(&self) -> Seq<u8> {
        self.engine.iv()
    }

    /// All source bytes fed to the engine so far, in order.
    pub closed spec fn fed(&self) -> Seq<u8> {
        self.engine.fed()
    }

    /// All bytes handed to callers so far, in order.
    pub closed spec fn delivered(&self) -> Seq<u8> {
        self.delivered@
    }

    /// Bytes the engine has produced that no caller has seen yet.
    pub closed spec fn buffered(&self) -> Seq<u8> {
        self.pending@.skip(self.pos as int)
    }

    /// True once the engine has been finalized (exactly once, after the
    /// source ended).
    pub closed spec fn finalized(&self) -> bool {
        self.finalized
    }

    /// True once an engine operation has failed; the adapter then refuses
    /// every further read with a cipher error.
    pub closed spec fn poisoned(&self) -> bool {
        self.poisoned
    }

    /// What the wrapped source will still deliver.
    pub closed spec fn source_remaining(&self) -> Seq<u8> {
        self.source.remaining()
    }

    /// The wrapped source as it stands now.
    pub closed spec fn source_view(&self) -> S {
        self.source
    }

    /// Everything the engine has produced so far for the fed bytes.
    pub open spec fn produced(&self) -> Seq<u8> {
        updates_out(self.kind(), self.enc(), self.key(), self.iv(), self.fed()) + if self.finalized() {
            finish_out(self.kind(), self.enc(), self.key(), self.iv(), self.fed())
        } else {
            Seq::<u8>::empty()
        }
    }

    /// End of stream: the engine is finalized and its whole output has been
    /// delivered. Every later read returns no bytes.
    pub open spec fn is_exhausted(&self) -> bool {
        self.finalized() && self.buffered().len() == 0
    }

    /// The adapter's invariant: the source is sound, the cursor sits inside
    /// the buffer, the parameters fit the cipher, and — as long as no engine
    /// call has failed — the bytes delivered followed by the bytes buffered
    /// are exactly the bytes produced, the engine is finalized if and only
    /// if the adapter says so, and finalization happened only after the
    /// source ended.
    pub closed spec fn wf(&self) -> bool {
        &&& self.source.wf()
        &&& self.pos <= self.pending@.len()
        &&& self.key().len() == spec_key_len(self.kind())
        &&& self.iv().len() == spec_iv_len(self.kind())
        &&& (self.poisoned ==> !self.finalized)
        &&& (!self.poisoned ==> {
            &&& self.engine.done() == self.finalized
            &&& self.delivered@ + self.buffered() === self.produced()
            &&& (self.finalized ==> self.source.remaining().len() == 0)
            &&& (self.finalized ==> decrypt_complete(
                self.kind(),
                self.enc(),
                self.key(),
                self.iv(),
                self.fed(),
            ))
            &&& (self.finalized ==> decrypt_valid(
                self.kind(),
                self.enc(),
                self.key(),
                self.iv(),
                self.fed(),
            ))
        })
    }

    /// Builds an adapter over `source` for the given direction. Fails with
    /// a configuration error exactly when the key or IV length is wrong for
    /// `kind`: the IV length is checked here, the key length by the engine.
    /// No byte is read from the source here: the first `read` drives the
    /// first pull.
    fn new_with(source: S, kind: CipherKind, enc: bool, key: &Vec<u8>, iv: &Vec<u8>) -> (r: Result<
        Adapter<S>,
        Error,
    >)
        requires
            source.wf(),
        ensures
            r matches Ok(a) ==> a.wf() && a.kind() == kind && a.enc() == enc && a.key() === key@
                && a.iv() === iv@ && a.delivered() === Seq::<u8>::empty() && a.fed()
                === Seq::<u8>::empty() && !a.finalized() && !a.poisoned() && a.source_view()
                === source && a.source_remaining() === source.remaining() && key@.len()
                == spec_key_len(kind) && iv@.len() == spec_iv_len(kind),
            r matches Err(e) ==> e == Error::Config,
            key@.len() != spec_key_len(kind) || iv@.len() != spec_iv_len(kind) ==> r is Err,
    {
        if iv.len() != iv_len(kind) {
            return Err(Error::Config);
        }
        if key.len() > MAX_PARAM_LEN {
            return Err(Error::Config);
        }
        match Engine::new(kind, enc, key, iv) {
            Ok(engine) => {
                let a = Adapter {
                    source,
                    engine,
                    pending: Vec::new(),
                    pos: 0,
                    finalized: false,
                    poisoned: false,
                    delivered: Ghost(Seq::empty()),
                };
                proof {
                    assert(a.buffered() =~= Seq::<u8>::empty());
                    assert(a.delivered@ + a.buffered() =~= a.produced());
                }
                Ok(a)
            },
            Err(_) => Err(Error::Config),
        }
    }

    /// Builds an encrypting adapter: reads of it return the ciphertext of
    /// the source's bytes.
    pub fn new_encrypt(source: S, kind: CipherKind, key: &Vec<u8>, iv: &Vec<u8>) -> (r: Result<
        Adapter<S>,
        Error,
    >)
        requires
            source.wf(),
        ensures
            r matches Ok(a) ==> a.wf() && a.kind() == kind && a.enc() && a.key() === key@ && a.iv()
                === iv@ && a.delivered() === Seq::<u8>::empty() && a.fed() === Seq::<u8>::empty()
                && !a.finalized() && !a.poisoned() && a.source_view() === source && a.source_remaining() === source.remaining()
                && key@.len() == spec_key_len(kind) && iv@.len() == spec_iv_len(kind),
            r matches Err(e) ==> e == Error::Config,
            key@.len() != spec_key_len(kind) || iv@.len() != spec_iv_len(kind) ==> r is Err,
    {
        Self::new_with(source, kind, true, key, iv)
    }

    /// Builds a decrypting adapter: reads of it return the plaintext of the
    /// source's bytes.
    pub fn new_decrypt(source: S, kind: CipherKind, key: &Vec<u8>, iv: &Vec<u8>) -> (r: Result<
        Adapter<S>,
        Error,
    >)
        requires
            source.wf(),
        ensures
            r matches Ok(a) ==> a.wf() && a.kind() == kind && !a.enc() && a.key() === key@
                && a.iv() === iv@ && a.delivered() === Seq::<u8>::empty() && a.fed()
                === Seq::<u8>::empty() && !a.finalized() && !a.poisoned() && a.source_view()
                === source && a.source_remaining() === source.remaining() && key@.len()
                == spec_key_len(kind) && iv@.len() == spec_iv_len(kind),
            r matches Err(e) ==> e == Error::Config,
            key@.len() != spec_key_len(kind) || iv@.len() != spec_iv_len(kind) ==> r is Err,
    {
        Self::new_with(source, kind, false, key, iv)
    }

    /// True exactly at end of stream.
    pub fn is_done(&self) -> (b: bool)
        requires
            self.wf(),
        ensures
            b == self.is_exhausted(),
    {
        self.finalized && self.pos == self.pending.len()
    }

    /// Serves up to `want` bytes from the front of the internal buffer,
    /// touching neither the source nor the engine.
    fn take_buffered(&mut self, want: usize) -> (chunk: Vec<u8>)
        requires
            old(self).wf(),
        ensures
            final(self).wf(),
            chunk@.len() == vstd::math::min(want as int, old(self).buffered().len() as int),
            chunk@ === old(self).buffered().take(chunk@.len() as int),
            final(self).buffered() === old(self).buffered().skip(chunk@.len() as int),
            final(self).delivered() === old(self).delivered() + chunk@,
            final(self).kind() == old(self).kind(),
            final(self).enc() == old(self).enc(),
            final(self).key() === old(self).key(),
            final(self).iv() === old(self).iv(),
            final(self).fed() === old(self).fed(),
            final(self).finalized() == old(self).finalized(),
            final(self).poisoned() == old(self).poisoned(),
            final(self).source_view() === old(self).source_view(),
    {
        let avail = self.pending.len() - self.pos;
        let n = if want < avail {
            want
        } else {
            avail
        };
        let ghost pend0: Seq<u8> = self.pending@;
        let ghost p0: int = self.pos as int;
        let ghost buf0: Seq<u8> = self.buffered();
        let ghost del0: Seq<u8> = self.delivered@;
        let end: usize = self.pos + n;
        let mut chunk: Vec<u8> = Vec::new();
        let mut j: usize = self.pos;
        while j < end
            invariant
                p0 <= j <= end,
                end <= self.pending@.len(),
                pend0 === self.pending@,
                p0 == self.pos as int,
                chunk@ === self.pending@.subrange(p0, j as int),
            decreases end - j,
        {
            chunk.push(self.pending[j]);
            j = j + 1;
            proof {
                assert(chunk@ =~= self.pending@.subrange(p0, j as int));
            }
        }
        self.pos = end;
        self.delivered = Ghost(del0 + chunk@);
        proof {
            assert(chunk@ =~= buf0.take(n as int));
            assert(self.buffered() =~= buf0.skip(n as int));
            assert(self.delivered@ + self.buffered() =~= del0 + buf0);
            if !self.poisoned {
                assert(self.delivered@ + self.buffered() === self.produced());
            }
        }
        chunk
    }

    /// Reads up to `want` bytes of the transformed stream.
    ///
    /// An empty result (with `want > 0`) means end of stream, and every
    /// later read returns the same; a short but non-empty result does not.
    /// A source failure is reported as `Io` and leaves the delivered bytes,
    /// the buffered bytes and the finalization state unchanged. An engine
    /// failure is reported as `Cipher` and poisons the adapter: every later
    /// read reports `Cipher` again.
    #[verifier::loop_isolation(false)]
    pub fn read(&mut self, want: usize) -> (r: Result<Vec<u8>, Error>)
        requires
            old(self).wf(),
        ensures
            final(self).wf(),
            final(self).kind() == old(self).kind(),
            final(self).enc() == old(self).enc(),
            final(self).key() === old(self).key(),
            final(self).iv() === old(self).iv(),
            old(self).poisoned() ==> r === Err::<Vec<u8>, Error>(Error::Cipher) && *final(self)
                === *old(self),
            old(self).is_exhausted() ==> r is Ok,
            old(self).buffered().len() > 0 && !old(self).poisoned() ==> r is Ok,
            match r {
                Ok(chunk) => {
                    &&& chunk@.len() <= want
                    &&& !final(self).poisoned()
                    &&& final(self).delivered() === old(self).delivered() + chunk@
                    &&& old(self).fed() + old(self).source_remaining() === final(self).fed()
                        + final(self).source_remaining()
                    &&& old(self).fed().len() <= final(self).fed().len()
                    &&& (old(self).is_exhausted() ==> chunk@.len() == 0 && *final(self) === *old(self))
                    &&& (chunk@.len() == 0 && want > 0 ==> final(self).is_exhausted())
                    &&& (old(self).buffered().len() > 0 ==> {
                        &&& chunk@.len() == vstd::math::min(
                            want as int,
                            old(self).buffered().len() as int,
                        )
                        &&& chunk@ === old(self).buffered().take(chunk@.len() as int)
                        &&& final(self).buffered() === old(self).buffered().skip(
                            chunk@.len() as int,
                        )
                        &&& final(self).fed() === old(self).fed()
                        &&& final(self).finalized() == old(self).finalized()
                        &&& final(self).source_view() === old(self).source_view()
                        &&& final(self).source_remaining() === old(self).source_remaining()
                    })
                    &&& (old(self).buffered().len() == 0 && !old(self).finalized() && old(self).source_remaining().len() > 0 && want > 0 ==> final(self).source_remaining().len() < old(self).source_remaining().len())
                    &&& (old(self).buffered().len() == 0 && !old(self).finalized() && old(self).source_remaining().len() == 0 && want > 0 ==> final(self).finalized())
                    &&& (final(self).finalized() ==> decrypt_valid(
                        final(self).kind(),
                        final(self).enc(),
                        final(self).key(),
                        final(self).iv(),
                        final(self).fed(),
                    ))
                },
                Err(e) => {
                    &&& (e == Error::Io || e == Error::Cipher)
                    &&& (e == Error::Io ==> final(self).delivered() === old(self).delivered()
                        && final(self).buffered() === old(self).buffered() && final(self).finalized() == old(self).finalized() && !final(self).poisoned() && old(self).fed() + old(self).source_remaining() === final(self).fed() + final(self).source_remaining())
                    &&& (e == Error::Cipher ==> final(self).poisoned() && final(self).delivered()
                        === old(self).delivered())
                },
            },
    {
        if self.poisoned {
            return Err(Error::Cipher);
        }
        if self.pos < self.pending.len() {
            let chunk = self.take_buffered(want);
            return Ok(chunk);
        }
        proof {
            assert(old(self).buffered().len() == 0);
            assert(self.buffered() =~= Seq::<u8>::empty());
        }
        if self.finalized {
            proof {
                assert(self.delivered@ + Seq::<u8>::empty() =~= self.delivered@);
            }
            return Ok(Vec::new());
        }
        if want == 0 {
            proof {
                assert(self.delivered@ + Seq::<u8>::empty() =~= self.delivered@);
            }
            return Ok(Vec::new());
        }
        self.pending = Vec::new();
        self.pos = 0;
        while self.pos >= self.pending.len() && !self.finalized
            invariant
                self.wf(),
                !self.poisoned,
                self.kind() == old(self).kind(),
                self.enc() == old(self).enc(),
                self.key() === old(self).key(),
                self.iv() === old(self).iv(),
                self.delivered@ === old(self).delivered(),
                old(self).fed() + old(self).source_remaining() === self.fed()
                    + self.source_remaining(),
                old(self).fed().len() <= self.fed().len(),
                self.source_remaining().len() < old(self).source_remaining().len() || old(self).source_remaining().len() == 0 || (!self.finalized && self.buffered().len() == 0
                    && self.source_remaining() === old(self).source_remaining()),
                old(self).source_remaining().len() == 0 && !self.finalized
                    ==> self.buffered().len() == 0,
            decreases
                    self.source.remaining().len(),
                    (if self.finalized {
                        0int
                    } else {
                        1int
                    }),
        {
            let pulled = self.source.read_chunk(PULL_SIZE);
            match pulled {
                Ok(c) => {
                    if c.len() == 0 {
                        proof {
                            assert(self.buffered() =~= Seq::<u8>::empty());
                            assert(self.delivered@ =~= updates_out(
                                self.kind(),
                                self.enc(),
                                self.key(),
                                self.iv(),
                                self.fed(),
                            ));
                        }
                        let tail = self.engine.finalize();
                        match tail {
                            Ok(t) => {
                                self.pending = t;
                                self.pos = 0;
                                self.finalized = true;
                                proof {
                                    assert(self.buffered() =~= self.pending@);
                                    assert(self.delivered@ + self.buffered() =~= self.produced());
                                    assert(decrypt_complete(
                                        self.kind(),
                                        self.enc(),
                                        self.key(),
                                        self.iv(),
                                        self.fed(),
                                    ));
                                    assert(decrypt_valid(
                                        self.kind(),
                                        self.enc(),
                                        self.key(),
                                        self.iv(),
                                        self.fed(),
                                    ));
                                }
                            },
                            Err(_) => {
                                self.poisoned = true;
                                return Err(Error::Cipher);
                            },
                        }
                    } else {
                        let ghost fed0: Seq<u8> = self.engine.fed();
                        proof {
                            assert(self.buffered() =~= Seq::<u8>::empty());
                            assert(self.delivered@ =~= updates_out(
                                self.kind(),
                                self.enc(),
                                self.key(),
                                self.iv(),
                                fed0,
                            ));
                        }
                        let fresh = self.engine.update(&c);
                        match fresh {
                            Ok(f) => {
                                self.pending = f;
                                self.pos = 0;
                                proof {
                                    assert(self.buffered() =~= self.pending@);
                                    assert(self.delivered@ + self.buffered() =~= self.produced());
                                    assert(self.fed() + self.source_remaining() =~= old(self).fed()
                                        + old(self).source_remaining());
                                }
                            },
                            Err(_) => {
                                self.poisoned = true;
                                return Err(Error::Cipher);
                            },
                        }
                    }
                },
                Err(e) => {
                    proof {
                        assert(self.buffered() =~= old(self).buffered());
                    }
                    return Err(e);
                },
            }
        }
        let chunk = self.take_buffered(want);
        proof {
            if chunk@.len() == 0 && want > 0 {
                assert(self.is_exhausted());
            }
        }
        Ok(chunk)
    }

    /// Reads until end of stream and returns everything read, concatenated:
    /// the whole transform of all bytes the source still held.
    #[verifier::loop_isolation(false)]
    pub fn read_to_end(&mut self) -> (r: Result<Vec<u8>, Error>)
        requires
            old(self).wf(),
        ensures
            final(self).wf(),
            final(self).kind() == old(self).kind(),
            final(self).enc() == old(self).enc(),
            final(self).key() === old(self).key(),
            final(self).iv() === old(self).iv(),
            r matches Ok(v) ==> !final(self).poisoned() && final(self).is_exhausted()
                && final(self).delivered() === old(self).delivered() + v@
                && final(self).fed() === old(self).fed() + old(self).source_remaining()
                && final(self).source_remaining().len() == 0,
            old(self).poisoned() ==> r is Err,
            old(self).is_exhausted() ==> r is Ok,
            r matches Err(e) ==> (e == Error::Io && !final(self).poisoned() && old(self).fed()
                + old(self).source_remaining() === final(self).fed() + final(self).source_remaining()) || (e == Error::Cipher && final(self).poisoned()),
            r is Err ==> old(self).delivered() === final(self).delivered().take(
                old(self).delivered().len() as int,
            ),
    {
        let mut acc: Vec<u8> = Vec::new();
        proof {
            assert(self.delivered() =~= old(self).delivered() + acc@);
        }
        loop
            invariant
                self.wf(),
                self.kind() == old(self).kind(),
                self.enc() == old(self).enc(),
                self.key() === old(self).key(),
                self.iv() === old(self).iv(),
                self.poisoned() == old(self).poisoned(),
                old(self).is_exhausted() ==> self.is_exhausted(),
                self.delivered() === old(self).delivered() + acc@,
                old(self).fed() + old(self).source_remaining() === self.fed()
                    + self.source_remaining(),
                old(self).fed().len() <= self.fed().len(),
            decreases
                    self.source_remaining().len(),
                    (if self.finalized() {
                        0int
                    } else {
                        1int
                    }),
                    self.buffered().len(),
        {
            if self.is_done() {
                proof {
                    assert(self.fed() + self.source_remaining() =~= self.fed());
                }
                return Ok(acc);
            }
            let next = self.read(PULL_SIZE);
            match next {
                Ok(mut chunk) => {
                    if chunk.len() == 0 {
                        proof {
                            assert(self.delivered() =~= old(self).delivered() + acc@);
                            assert(self.fed() + self.source_remaining() =~= self.fed());
                        }
                        return Ok(acc);
                    }
                    acc.append(&mut chunk);
                    proof {
                        assert(self.delivered() =~= old(self).delivered() + acc@);
                    }
                },
                Err(e) => {
                    proof {
                        assert(old(self).delivered() =~= self.delivered().take(
                            old(self).delivered().len() as int,
                        ));
                    }
                    return Err(e);
                },
            }
        }
    }

    /// Hands the wrapped source back, untouched by this call. The engine
    /// and any bytes it produced that were not yet read are discarded, so a
    /// caller that wants the tail of the stream must read to end of stream
    /// first.
    pub fn finish(self) -> (r: S)
        ensures
            r === self.source_view(),
            r.remaining() === self.source_remaining(),
            self.wf() ==> r.wf(),
    {
        let Adapter { source, engine, pending, pos, finalized, poisoned, delivered } = self;
        source
    }
}

/// Law: the bytes delivered so far followed by the bytes still buffered are
/// exactly the bytes the engine has produced so far — partial reads lose,
/// duplicate and reorder nothing.
pub proof fn lemma_no_loss<S: ByteSource>(a: &Adapter<S>)
    requires
        a.wf(),
        !a.poisoned(),
    ensures
        a.delivered() + a.buffered() === a.produced(),
{
}

/// Law: a drained adapter has delivered exactly the transform of all bytes
/// its source supplied — independent of the sequence of read sizes that
/// drained it.
pub proof fn lemma_drained_is_transform<S: ByteSource>(a: &Adapter<S>)
    requires
        a.wf(),
        a.is_exhausted(),
    ensures
        a.delivered() === transform(a.kind(), a.enc(), a.key(), a.iv(), a.fed()),
        a.source_remaining().len() == 0,
{
    assert(a.delivered() + a.buffered() =~= a.delivered());
}

/// Law: two drained adapters with the same cipher, direction, key and IV
/// whose sources supplied the same bytes have delivered the same bytes —
/// the callers' read sizes cannot change the stream's content.
pub proof fn lemma_streaming_equivalence<S1: ByteSource, S2: ByteSource>(
    a: &Adapter<S1>,
    b: &Adapter<S2>,
)
    requires
        a.wf(),
        b.wf(),
        a.is_exhausted(),
        b.is_exhausted(),
        a.kind() == b.kind(),
        a.enc() == b.enc(),
        a.key() === b.key(),
        a.iv() === b.iv(),
        a.fed() === b.fed(),
    ensures
        a.delivered() === b.delivered(),
{
    lemma_drained_is_transform(a);
    lemma_drained_is_transform(b);
}

/// Law: a drained decrypting adapter whose source supplied the ciphertext
/// that encryption under the same parameters produced from input `p` has
/// delivered exactly `p`.
pub proof fn lemma_decrypt_restores<S: ByteSource>(a: &Adapter<S>, p: Seq<u8>)
    requires
        a.wf(),
        a.is_exhausted(),
        !a.enc(),
        a.fed() === transform(a.kind(), true, a.key(), a.iv(), p),
    ensures
        a.delivered() === p,
{
    lemma_drained_is_transform(a);
    assert(decrypt_complete(a.kind(), a.enc(), a.key(), a.iv(), a.fed()));
}

/// Law: a decrypting adapter finalizes only on a byte stream that
/// encryption under the same cipher, key and IV produces from some input —
/// an invalid ciphertext surfaces a cipher error instead, so its
/// decryption is never silently delivered in full.
pub proof fn lemma_finalized_means_valid_ciphertext<S: ByteSource>(a: &Adapter<S>)
    requires
        a.wf(),
        a.finalized(),
        !a.enc(),
    ensures
        exists|p: Seq<u8>| a.fed() == transform(a.kind(), true, a.key(), a.iv(), p),
{
    assert(decrypt_valid(a.kind(), a.enc(), a.key(), a.iv(), a.fed()));
}

} // verus!
