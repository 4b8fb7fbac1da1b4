//! Message digests (SHA-256 and MD5) and their hexadecimal text.
use vstd::prelude::*;
use vstd::string::StringSliceAdditionalSpecFns;
use crate::text::{hex_lower, hex_seq};
use sha2::Digest;

verus! {

/// The SHA-256 digest of `data`, as the `sha2` crate computes it.
pub uninterp spec fn sha256_digest(data: Seq<u8>) -> Seq<u8>;

/// Calls `sha2::Sha256::digest`. The contract claims that the result is the
/// digest named `sha256_digest` of the input, 32 bytes long.
#[verifier::external_body]
fn sha256(data: &[u8]) -> (r: Vec<u8>)
    ensures
        r@ == sha256_digest(data@),
        r@.len() == 32,
{
    sha2::Sha256::digest(data).to_vec()
}

/// The lower-case hexadecimal SHA-256 of the UTF-8 bytes of `text`.
pub open spec fn sha256_hex_spec(text: Seq<char>) -> Seq<char> {
    hex_seq(sha256_digest(vstd::utf8::encode_utf8(text)))
}

/// SHA-256 of the UTF-8 bytes of `text`, written as 64 lower-case hex digits.
pub fn sha256_hex(text: &str) -> (r: String)
    ensures
        r@ == sha256_hex_spec(text@),
{
    let d = sha256(text.as_bytes());
    hex_lower(d.as_slice())
}

/// The MD5 digest of `data`, as the `md5` crate computes it.
pub uninterp spec fn md5_digest(data: Seq<u8>) -> Seq<u8>;

/// Calls `md5::compute`. The contract claims that the result is the digest
/// named `md5_digest` of the input, 16 bytes long.
#[verifier::external_body]
fn md5(data: &[u8]) -> (r: Vec<u8>)
    ensures
        r@ == md5_digest(data@),
        r@.len() == 16,
{
    md5::compute(data).0.to_vec()
}

/// The lower-case hexadecimal MD5 of the UTF-8 bytes of `text` (`{:x}`).
pub open spec fn md5_hex_spec(text: Seq<char>) -> Seq<char> {
    hex_seq(md5_digest(vstd::utf8::encode_utf8(text)))
}

pub fn md5_hex(text: &str) -> (r: String)
    ensures
        r@ == md5_hex_spec(text@),
{
    let d = md5(text.as_bytes());
    hex_lower(d.as_slice())
}

} // verus!
