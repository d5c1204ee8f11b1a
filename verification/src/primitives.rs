//! The cryptographic and codec primitives the library builds on.
//!
//! Everything in this module is a thin call into another crate, and its
//! contract is taken on trust from that crate. The only other things
//! taken on trust are in the `interface` module: the declaration of the
//! mailbox error of the actor framework, and that its clone is a copy.

use vstd::prelude::*;

verus! {

/// Length of an HMAC-SHA-512 tag in bytes.
pub const TAG_SIZE: usize = 64;

/// Length of a sealing key in bytes.
pub const KEY_SIZE: usize = 32;

/// A 256-bit key under which snapshots are sealed.
pub type Key = [u8; 32];

/// The HMAC-SHA-512 tag of `data` under `key`.
pub uninterp spec fn hmac_sha512_tag(data: Seq<u8>, key: Seq<u8>) -> Seq<u8>;

/// The plaintext that a sealed byte string opens to under `key` and
/// `associated_data`, or `None` where it does not authenticate.
pub uninterp spec fn opened(sealed: Seq<u8>, key: Seq<u8>, associated_data: Seq<u8>) -> Option<
    Seq<u8>,
>;

/// The bytes that an LZ4 block stream expands to, or `None` where the stream
/// is malformed.
pub uninterp spec fn inflated(packed: Seq<u8>) -> Option<Seq<u8>>;

/// Calls `crypto::macs::hmac::HMAC_SHA512`.
///
/// Trusted: the result is the 64-byte tag, a function of `data` and `key`
/// alone. Keys of every length are accepted.
#[verifier::external_body]
pub(crate) fn hmac_sha512(data: &[u8], key: &[u8]) -> (tag: Vec<u8>)
    ensures
        tag@ == hmac_sha512_tag(data@, key@),
        tag@.len() == TAG_SIZE,
{
    let mut mac: [u8; 64] = [0u8; 64];
    crypto::macs::hmac::HMAC_SHA512(data, key, &mut mac);
    mac.to_vec()
}

/// Calls `crypto::utils::rand::fill` on `buffer`.
///
/// Trusted: the buffer keeps its length. Nothing is claimed of what it
/// holds afterwards; `false` stands for a failure of the entropy source.
#[verifier::external_body]
pub(crate) fn fill_random(buffer: &mut Vec<u8>) -> (filled: bool)
    ensures
        final(buffer)@.len() == old(buffer)@.len(),
{
    crypto::utils::rand::fill(buffer.as_mut_slice()).is_ok()
}

/// Calls `engine::snapshot::write` with an in-memory sink.
///
/// The sealing draws a fresh ephemeral key, so nothing is claimed of the
/// bytes that come back; `None` stands for a failure to seal.
#[verifier::external_body]
pub(crate) fn seal(plain: &[u8], key: &Key, associated_data: &[u8]) -> (sealed: Option<Vec<u8>>) {
    let mut sink: Vec<u8> = Vec::new();
    match engine::snapshot::write(plain, &mut sink, key, associated_data) {
        Ok(()) => Some(sink),
        Err(_) => None,
    }
}

/// Calls `engine::snapshot::read` on an in-memory source.
///
/// Trusted: opening is a function of the sealed bytes, the key and the
/// associated data alone, and the call returns exactly that result.
#[verifier::external_body]
pub(crate) fn open(sealed: &[u8], key: &Key, associated_data: &[u8]) -> (plain: Option<Vec<u8>>)
    ensures
        match plain {
            Some(p) => opened(sealed@, key@, associated_data@) == Some(p@),
            None => opened(sealed@, key@, associated_data@) is None,
        },
{
    let mut source: &[u8] = sealed;
    match engine::snapshot::read(&mut source, key, associated_data) {
        Ok(plain) => Some(plain),
        Err(_) => None,
    }
}

/// Calls `engine::snapshot::compress`. Nothing is claimed of the packed bytes.
#[verifier::external_body]
pub(crate) fn deflate(plain: &[u8]) -> (packed: Vec<u8>) {
    engine::snapshot::compress(plain)
}

/// Calls `engine::snapshot::decompress`.
///
/// Trusted: expansion is a function of the packed bytes alone, and the call
/// returns exactly that result.
#[verifier::external_body]
pub(crate) fn inflate(packed: &[u8]) -> (plain: Option<Vec<u8>>)
    ensures
        match plain {
            Some(p) => inflated(packed@) == Some(p@),
            None => inflated(packed@) is None,
        },
{
    match engine::snapshot::decompress(packed) {
        Ok(plain) => Some(plain),
        Err(_) => None,
    }
}

/// Calls `zeroize::Zeroize::zeroize` on a byte vector.
///
/// Trusted: the vector is left empty (its former contents and spare
/// capacity having been overwritten with zeroes).
#[verifier::external_body]
pub(crate) fn scrub(secret: &mut Vec<u8>)
    ensures
        final(secret)@ == Seq::<u8>::empty(),
{
    zeroize::Zeroize::zeroize(secret)
}

} // verus!
