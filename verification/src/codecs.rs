//! The trusted boundary to outside computation: base64 and MD5 for the
//! customer-key encryption helper, and RFC-2822 parsing for `Last-Modified`
//! headers.  Each result is a function of the arguments alone and is given
//! a name that the callers' contracts speak of.

use vstd::prelude::*;

verus! {

/// The standard, padded base64 rendering of `data`.
pub uninterp spec fn base64_of(data: Seq<u8>) -> Seq<char>;

/// Relies on `base64::encode`: the standard-alphabet, padded encoding, a
/// function of the input bytes alone, four output characters for every
/// three (started) input bytes.
#[verifier::external_body]
pub fn base64_encode(data: &[u8]) -> (r: String)
    requires
        data@.len() <= usize::MAX / 4,
    ensures
        r@ == base64_of(data@),
        r@.len() == ((data@.len() + 2) / 3) * 4,
{
    base64::encode(data)
}

/// The 16-byte MD5 digest of `data`.
pub uninterp spec fn md5_of(data: Seq<u8>) -> Seq<u8>;

/// Relies on `md5::compute`: a 16-byte digest, a function of the input
/// bytes alone.
#[verifier::external_body]
pub fn md5_digest(data: &[u8]) -> (r: Vec<u8>)
    ensures
        r@ == md5_of(data@),
        r@.len() == 16,
{
    md5::compute(data).0.to_vec()
}

/// The UNIX timestamp encoded by an RFC-2822 date string, when the string
/// parses as one.
pub uninterp spec fn rfc2822_of(s: Seq<char>) -> Option<i64>;

/// Relies on `time::OffsetDateTime::parse` with the well-known RFC-2822
/// description, and on `OffsetDateTime::unix_timestamp`: both depend on
/// the input characters alone.
#[verifier::external_body]
pub fn parse_rfc2822(s: &str) -> (r: Option<i64>)
    ensures
        r == rfc2822_of(s@),
{
    time::OffsetDateTime::parse(s, &time::format_description::well_known::Rfc2822)
        .ok()
        .map(|t| t.unix_timestamp())
}

} // verus!
