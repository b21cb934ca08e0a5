//! Streaming SHA-256 of file content, cut off at a byte limit.

use crate::error::Error;
use sha2::Digest;
use vstd::prelude::*;
use vstd::slice::slice_subrange;

verus! {

/// The SHA-256 digest of a message.
pub uninterp spec fn sha256(message: Seq<u8>) -> Seq<u8>;

/// The bytes that a hasher has been fed so far, in order.
pub uninterp spec fn absorbed(hasher: Hasher) -> Seq<u8>;

/// The length from which on SHA-256 is not defined: the message's length in
/// bits has to fit in 64 bits.
pub const MESSAGE_BOUND: u64 = 0x2000_0000_0000_0000;

/// An incremental SHA-256 state of the `sha2` crate. The state is opaque:
/// all that is said of it is which bytes it has absorbed.
#[verifier::external_body]
pub struct Hasher {
    state: sha2::Sha256,
}

/// `sha2::Sha256::new`: a hasher that has been fed nothing.
#[verifier::external_body]
fn hasher_new() -> (hasher: Hasher)
    ensures
        absorbed(hasher) == Seq::<u8>::empty(),
{
    Hasher { state: sha2::Sha256::new() }
}

/// `sha2::Sha256::update`: the hasher that comes back has been fed `data`
/// after what the one handed in had been fed. Within the bound the crate's
/// block counter cannot overflow.
#[verifier::external_body]
fn hasher_update(hasher: Hasher, data: &[u8]) -> (fed: Hasher)
    requires
        absorbed(hasher).len() + data@.len() < MESSAGE_BOUND,
    ensures
        absorbed(fed) == absorbed(hasher) + data@,
{
    let mut state = hasher.state;
    state.update(data);
    Hasher { state }
}

/// `sha2::Sha256::finalize`: the SHA-256 digest of everything the hasher was
/// fed. The crate computes the message's bit length in 64 bits, so the
/// message has to be shorter than `MESSAGE_BOUND` bytes.
#[verifier::external_body]
fn hasher_finalize(hasher: Hasher) -> (digest: [u8; 32])
    requires
        absorbed(hasher).len() < MESSAGE_BOUND,
    ensures
        digest@ == sha256(absorbed(hasher)),
{
    hasher.state.finalize().into()
}

/// The first `limit` bytes of a file's content, or all of it where the file
/// is shorter: the part of the content that a limited checksum covers.
pub open spec fn limited(content: Seq<u8>, limit: u64) -> Seq<u8> {
    if content.len() <= limit {
        content
    } else {
        content.take(limit as int)
    }
}

/// A SHA-256 computation over a stream of chunks that covers the first
/// `limit` bytes of the stream and passes over the rest.
pub struct Checksum {
    hasher: Hasher,
    consumed: u64,
    remaining: u64,
    fed: Ghost<Seq<u8>>,
}

impl Checksum {
    #[verifier::type_invariant]
    spec fn well_formed(&self) -> bool {
        &&& absorbed(self.hasher) == limited(self.fed@, (self.consumed + self.remaining) as u64)
        &&& absorbed(self.hasher).len() == self.consumed
        &&& self.consumed + self.remaining <= u64::MAX
        &&& self.consumed < MESSAGE_BOUND
    }

    /// The content of the stream so far: the chunks fed, one after the other.
    pub closed spec fn fed(&self) -> Seq<u8> {
        self.fed@
    }

    /// The number of bytes that the computation covers at most.
    pub closed spec fn limit(&self) -> u64 {
        (self.consumed + self.remaining) as u64
    }

    /// The part of the stream that the computation covers.
    pub open spec fn input(&self) -> Seq<u8> {
        limited(self.fed(), self.limit())
    }

    /// What the computation would cover if `len` more bytes were fed.
    pub open spec fn input_len_after(&self, len: nat) -> nat {
        if self.fed().len() + len <= self.limit() {
            self.fed().len() + len
        } else {
            self.limit() as nat
        }
    }

    /// Whether `update` accepts a chunk of `len` bytes: with it the covered
    /// part of the stream is still a message that SHA-256 is defined for.
    pub open spec fn accepts(&self, len: nat) -> bool {
        self.input_len_after(len) < MESSAGE_BOUND
    }

    /// A computation over an empty stream that will cover `limit` bytes at
    /// most.
    pub fn new(limit: u64) -> (checksum: Checksum)
        ensures
            checksum.fed() == Seq::<u8>::empty(),
            checksum.limit() == limit,
    {
        Checksum { hasher: hasher_new(), consumed: 0, remaining: limit, fed: Ghost(Seq::empty()) }
    }

    /// The number of bytes covered so far.
    pub fn consumed(&self) -> (n: u64)
        ensures
            n == self.input().len(),
            n < MESSAGE_BOUND,
    {
        proof {
            use_type_invariant(self);
        }
        self.consumed
    }

    /// The number of bytes that can still be covered.
    pub fn remaining(&self) -> (n: u64)
        ensures
            n == self.limit() - self.input().len(),
    {
        proof {
            use_type_invariant(self);
        }
        self.remaining
    }

    /// Feeds the next chunk of the stream. Of the chunk only what lies
    /// within the limit is hashed. A chunk that would take the covered part
    /// of the stream out of SHA-256's domain is refused.
    pub fn update(self, chunk: &[u8]) -> (next: Result<Checksum, Error>)
        ensures
            match next {
                Ok(next) => {
                    &&& self.accepts(chunk@.len())
                    &&& next.fed() == self.fed() + chunk@
                    &&& next.limit() == self.limit()
                },
                Err(error) => !self.accepts(chunk@.len()) && error == Error::BadFile,
            },
    {
        proof {
            use_type_invariant(&self);
        }
        let n: usize = if (chunk.len() as u64) <= self.remaining {
            chunk.len()
        } else {
            self.remaining as usize
        };
        if n as u64 >= MESSAGE_BOUND - self.consumed {
            return Err(Error::BadFile);
        }
        let part = slice_subrange(chunk, 0, n);
        let ghost fed = self.fed@ + chunk@;
        assert(absorbed(self.hasher) + part@ =~= limited(fed, self.limit()));
        Ok(
            Checksum {
                hasher: hasher_update(self.hasher, part),
                consumed: self.consumed + n as u64,
                remaining: self.remaining - n as u64,
                fed: Ghost(fed),
            },
        )
    }

    /// Ends the computation: the digest of the covered part of the stream.
    pub fn finalize(self) -> (digest: [u8; 32])
        ensures
            digest@ == sha256(self.input()),
    {
        proof {
            use_type_invariant(&self);
        }
        hasher_finalize(self.hasher)
    }
}

/// Whether a message is one that SHA-256 is defined for.
pub open spec fn hashable(message: Seq<u8>) -> bool {
    message.len() < MESSAGE_BOUND
}

/// The SHA-256 digest of `data`. Data that is too long for SHA-256 is
/// refused.
pub fn checksum(data: &[u8]) -> (digest: Result<[u8; 32], Error>)
    ensures
        match digest {
            Ok(d) => hashable(data@) && d@ == sha256(data@),
            Err(error) => !hashable(data@) && error == Error::BadFile,
        },
{
    Ok(Checksum::new(u64::MAX).update(data)?.finalize())
}

/// A limit at or over the content's length covers the whole content; a
/// smaller one covers the content's first `limit` bytes.
pub proof fn limit_cuts_content(content: Seq<u8>, limit: u64)
    ensures
        content.len() <= limit ==> limited(content, limit) == content,
        content.len() > limit ==> limited(content, limit) == content.take(limit as int) && limited(
            content,
            limit,
        ).len() == limit,
{
}

/// Two digests of the same content are the same digest.
pub proof fn digests_agree(first: [u8; 32], second: [u8; 32], content: Seq<u8>)
    requires
        first@ == sha256(content),
        second@ == sha256(content),
    ensures
        first == second,
{
}

} // verus!
