//! Base64 and SHA-1, computed by the `base64` and `sha1` crates.
use vstd::prelude::*;
use vstd::utf8::encode_utf8;
use base64::Engine;
use sha1::Digest;

verus! {

/// The bytes that the standard padded base64 alphabet decodes `input` to,
/// or nothing where `input` is not valid base64.
pub uninterp spec fn base64_decoded(input: Seq<u8>) -> Option<Seq<u8>>;

/// The standard padded base64 text of `data`.
pub uninterp spec fn base64_encoded(data: Seq<u8>) -> Seq<char>;

/// The SHA-1 digest of `data`.
pub uninterp spec fn sha1_digest(data: Seq<u8>) -> Seq<u8>;

/// `base64::engine::general_purpose::STANDARD.decode`: the decoded bytes,
/// or `None` on a decoding error.
#[verifier::external_body]
pub(crate) fn base64_decode(input: &[u8]) -> (r: Option<Vec<u8>>)
    ensures
        r matches Some(v) ==> base64_decoded(input@) == Some(v@),
        r is None ==> base64_decoded(input@) is None,
{
    base64::engine::general_purpose::STANDARD.decode(input).ok()
}

/// `base64::engine::general_purpose::STANDARD.encode`. Its buffer size is
/// computed with a checked multiplication that panics past `usize::MAX`;
/// inputs of at most half the address space stay clear of it. As the crate
/// documents for a padded engine, the text has four characters per started
/// group of three bytes, and the same engine decodes it back to the data.
#[verifier::external_body]
pub(crate) fn base64_encode(data: &[u8]) -> (r: String)
    requires
        data@.len() <= usize::MAX / 2,
    ensures
        r@ == base64_encoded(data@),
        r@.len() == 4 * ((data@.len() + 2) / 3),
        base64_decoded(encode_utf8(r@)) == Some(data@),
{
    base64::engine::general_purpose::STANDARD.encode(data)
}

/// `sha1::Sha1::digest`: the 20-byte SHA-1 digest.
#[verifier::external_body]
pub(crate) fn sha1(data: &[u8]) -> (r: Vec<u8>)
    ensures
        r@ == sha1_digest(data@),
        r@.len() == 20,
{
    sha1::Sha1::digest(data).to_vec()
}

} // verus!
