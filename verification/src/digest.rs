//! The digest that follows every transfer.
//!
//! A file is hashed the way it is read: chunk by chunk, each chunk fed to
//! the hasher as one slice. The digest therefore depends on where the
//! chunks end, and every digest in this crate is taken over chunks of
//! [`CHUNK_SIZE`] bytes, the last one shorter.

use crate::CHUNK_SIZE;
use std::collections::hash_map::DefaultHasher;
use std::hash::Hash;
use std::hash::Hasher;
use vstd::prelude::*;
use vstd::slice::slice_subrange;
use vstd::std_specs::hash::DefaultHasherAdditionalSpecFns;

verus! {

/// What a hasher has been fed once a byte slice holding `chunk` has been
/// hashed into it, `fed` being what it had been fed before.
///
/// Hashing a slice may feed the hasher more than the slice's bytes, so
/// that one slice cannot be taken for two, and the standard library does
/// not spell out what; this names it. It is fixed for a given build
/// target.
pub uninterp spec fn absorbed(fed: Seq<Seq<u8>>, chunk: Seq<u8>) -> Seq<Seq<u8>>;

/// Calls `<[u8] as Hash>::hash` on `chunk` with `hasher` as the state.
///
/// Trusted: the hasher's new state is [`absorbed`] of its old state and the
/// chunk, which says no more than that the two determine it.
#[verifier::external_body]
fn hash_slice(hasher: &mut DefaultHasher, chunk: &[u8])
    ensures
        final(hasher)@ == absorbed(old(hasher)@, chunk@),
{
    <[u8] as Hash>::hash(chunk, hasher);
}

/// What a hasher that had been fed `fed` has been fed after `chunks`, in
/// order.
pub open spec fn absorb_all(fed: Seq<Seq<u8>>, chunks: Seq<Seq<u8>>) -> Seq<Seq<u8>>
    decreases chunks.len(),
{
    if chunks.len() == 0 {
        fed
    } else {
        absorb_all(absorbed(fed, chunks[0]), chunks.skip(1))
    }
}

/// The digest of a file that was read as `chunks`.
pub open spec fn stream_digest(chunks: Seq<Seq<u8>>) -> u64 {
    DefaultHasher::spec_finish(absorb_all(Seq::empty(), chunks))
}

/// What one read yields of `bytes` that lie ahead: all of them up to
/// [`CHUNK_SIZE`], and no more.
pub open spec fn first_chunk(bytes: Seq<u8>) -> Seq<u8> {
    if bytes.len() <= CHUNK_SIZE {
        bytes
    } else {
        bytes.take(CHUNK_SIZE as int)
    }
}

/// `content` cut into the chunks that reading it yields: each holds
/// [`CHUNK_SIZE`] bytes but the last, which holds what is left and is never
/// empty.
pub open spec fn chunks_of(content: Seq<u8>) -> Seq<Seq<u8>>
    decreases content.len(),
{
    if content.len() == 0 {
        Seq::empty()
    } else {
        seq![first_chunk(content)] + chunks_of(content.skip(first_chunk(content).len() as int))
    }
}

/// The digest of a file that holds `content`.
pub open spec fn content_digest(content: Seq<u8>) -> u64 {
    stream_digest(chunks_of(content))
}

/// A digest in the making.
#[derive(Debug)]
pub struct ContentHasher {
    inner: DefaultHasher,
}

impl View for ContentHasher {
    type V = Seq<Seq<u8>>;

    /// What the hasher has been fed so far.
    closed spec fn view(&self) -> Seq<Seq<u8>> {
        self.inner@
    }
}

impl ContentHasher {
    /// A hasher that has been fed nothing.
    pub fn new() -> (hasher: ContentHasher)
        ensures
            hasher@ == Seq::<Seq<u8>>::empty(),
    {
        ContentHasher { inner: DefaultHasher::new() }
    }

    /// Feeds one chunk of a file.
    pub fn update(&mut self, chunk: &[u8])
        ensures
            final(self)@ == absorbed(old(self)@, chunk@),
    {
        hash_slice(&mut self.inner, chunk);
    }

    /// The digest of what has been fed.
    pub fn finish(&self) -> (digest: u64)
        ensures
            digest == DefaultHasher::spec_finish(self@),
    {
        self.inner.finish()
    }
}

/// Computes the digest of a file that holds `content`.
pub fn calculate_hash(content: &[u8]) -> (digest: u64)
    ensures
        digest == content_digest(content@),
{
    let mut hasher = ContentHasher::new();
    let mut pos: usize = 0;
    assert(content@.skip(0) == content@);
    while pos < content.len()
        invariant
            pos <= content.len(),
            absorb_all(hasher@, chunks_of(content@.skip(pos as int))) == absorb_all(
                Seq::empty(),
                chunks_of(content@),
            ),
        decreases content.len() - pos,
    {
        let end: usize = if content.len() - pos > CHUNK_SIZE {
            pos + CHUNK_SIZE
        } else {
            content.len()
        };
        let ghost rest = content@.skip(pos as int);
        hasher.update(slice_subrange(content, pos, end));
        proof {
            let chunk = content@.subrange(pos as int, end as int);
            assert(chunk == first_chunk(rest));
            assert(content@.skip(end as int) == rest.skip(chunk.len() as int));
            assert((seq![chunk] + chunks_of(rest.skip(chunk.len() as int))).skip(1) == chunks_of(
                rest.skip(chunk.len() as int),
            ));
        }
        pos = end;
    }
    assert(content@.skip(pos as int).len() == 0);
    hasher.finish()
}

/// The chunks of a file are the file: put together in order they give its
/// content, none is empty, and each holds [`CHUNK_SIZE`] bytes but the
/// last, which may hold fewer. So a file of `n` bytes has as many chunks as
/// `n` divided by the chunk size, rounded up.
pub proof fn law_chunks_make_the_content(content: Seq<u8>)
    ensures
        chunks_of(content).flatten() == content,
        chunks_of(content).len() == (content.len() + CHUNK_SIZE - 1) / (CHUNK_SIZE as int),
        forall|i: int|
            0 <= i < chunks_of(content).len() ==> 0 < (#[trigger] chunks_of(content)[i]).len()
                <= CHUNK_SIZE,
        forall|i: int|
            0 <= i < chunks_of(content).len() - 1 ==> (#[trigger] chunks_of(content)[i]).len()
                == CHUNK_SIZE,
    decreases content.len(),
{
    if content.len() == 0 {
        assert(chunks_of(content).flatten() == content);
    } else {
        let head = first_chunk(content);
        let rest = content.skip(head.len() as int);
        let tail = chunks_of(rest);
        law_chunks_make_the_content(rest);
        let all = seq![head] + tail;
        assert(chunks_of(content) == all);
        assert(all.first() == head);
        assert(all.drop_first() == tail);
        assert(all.flatten() == head + tail.flatten());
        assert(head + rest == content);
        assert forall|i: int| 0 <= i < all.len() implies 0 < (#[trigger] all[i]).len()
            <= CHUNK_SIZE by {
            if i > 0 {
                assert(all[i] == tail[i - 1]);
            }
        }
        assert forall|i: int| 0 <= i < all.len() - 1 implies (#[trigger] all[i]).len()
            == CHUNK_SIZE by {
            if i > 0 {
                assert(all[i] == tail[i - 1]);
            } else {
                assert(tail.len() > 0);
                assert(rest.len() > 0);
            }
        }
    }
}

} // verus!
