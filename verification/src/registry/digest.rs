//! SHA-256 digests, as the `sha2` crate computes them.
//!
//! Nothing in this module is proved: it states what the library takes from
//! `sha2` on trust.

use sha2::Digest;
use vstd::prelude::*;

verus! {

/// The SHA-256 digest of `data`, written as `sha2` formats it with `{:x}`:
/// in hexadecimal, with lower-case letters.
pub uninterp spec fn sha256_hex(data: Seq<u8>) -> Seq<char>;

/// A SHA-256 computation in progress. It holds a `sha2::Sha256`, whose type
/// is made of generic parts that cannot be declared one by one.
#[verifier::external_body]
pub struct Sha256Stream {
    inner: sha2::Sha256,
}

/// The bytes that a computation has been fed so far, in order.
pub uninterp spec fn absorbed(stream: Sha256Stream) -> Seq<u8>;

/// `sha2::Sha256::new`: a computation that has been fed nothing.
#[verifier::external_body]
pub(crate) fn start() -> (stream: Sha256Stream)
    ensures
        absorbed(stream) == Seq::<u8>::empty(),
{
    Sha256Stream { inner: sha2::Sha256::new() }
}

/// `sha2::Digest::update`: feeds `chunk` to the computation, after what it
/// was fed before.
#[verifier::external_body]
pub(crate) fn feed(stream: &mut Sha256Stream, chunk: &[u8])
    ensures
        absorbed(*final(stream)) == absorbed(*old(stream)) + chunk@,
{
    stream.inner.update(chunk)
}

/// The digits of lower-case hexadecimal.
pub open spec fn is_hex_digit(c: char) -> bool {
    ('0' <= c && c <= '9') || ('a' <= c && c <= 'f')
}

/// What a SHA-256 digest looks like once written out: two hexadecimal
/// digits for each of its 32 bytes.
pub open spec fn is_digest_text(hex: Seq<char>) -> bool {
    &&& hex.len() == 64
    &&& forall|i: int| 0 <= i < 64 ==> is_hex_digit(#[trigger] hex[i])
}

/// `sha2::Digest::finalize`, formatted with `{:x}`: the digest of all that
/// the computation was fed. The digest has 32 bytes, and the formatting
/// writes each byte as two digits out of `0123456789abcdef`.
#[verifier::external_body]
pub(crate) fn finish(stream: Sha256Stream) -> (hex: String)
    ensures
        hex@ == sha256_hex(absorbed(stream)),
        is_digest_text(hex@),
{
    format!("{:x}", stream.inner.finalize())
}

} // verus!
