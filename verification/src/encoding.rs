//! Text encoding and checksums: base64 of the crate base64 and the
//! Reed-Solomon code of the crate reed-solomon.
//!
//! Nothing in this file is proved. Each function here makes one call into
//! one of the two crates, and its contract says what that crate's
//! documentation and source say of the call.

use vstd::prelude::*;
use vstd::string::StringSliceAdditionalSpecFns;

verus! {

/// The text that `base64::encode` makes of bytes: the standard alphabet,
/// padded.
pub uninterp spec fn base64_text(bytes: Seq<u8>) -> Seq<char>;

/// The bytes that `base64::decode` reads from a text, or `None` where it
/// rejects the text.
pub uninterp spec fn base64_bytes(text: Seq<char>) -> Option<Seq<u8>>;

/// The text that `base64::encode_config` makes of bytes with the
/// configuration `URL_SAFE`: the URL-safe alphabet, padded.
pub uninterp spec fn base64url_text(bytes: Seq<u8>) -> Seq<char>;

/// The bytes that `base64::decode_config` reads from a text with the
/// configuration `URL_SAFE`, or `None` where it rejects the text.
pub uninterp spec fn base64url_bytes(text: Seq<char>) -> Option<Seq<u8>>;

/// The parity bytes that a Reed-Solomon encoder of `ecc_len` parity bytes
/// computes for a block of data.
pub uninterp spec fn rs_parity(ecc_len: usize, data: Seq<u8>) -> Seq<u8>;

/// Whether a Reed-Solomon decoder of `ecc_len` parity bytes finds a block,
/// data and parity, corrupted.
pub uninterp spec fn rs_corrupted(ecc_len: usize, block: Seq<u8>) -> bool;

/// The number of characters of the padded base64 text of `len` bytes.
pub open spec fn base64_len(len: nat) -> nat {
    4 * ((len + 2) / 3)
}

/// Decoded bytes as a byte sequence.
pub open spec fn decoded_view(bytes: Option<Vec<u8>>) -> Option<Seq<u8>> {
    match bytes {
        Some(b) => Some(b@),
        None => None,
    }
}

/// `base64::encode`: the padded text of the bytes in the standard alphabet,
/// which is part of ASCII, four characters for every three bytes begun. It
/// panics only where that length overflows. `base64::decode` reads the bytes
/// back from it.
#[verifier::external_body]
pub(crate) fn base64_encode(bytes: &Vec<u8>) -> (text: String)
    requires
        bytes@.len() / 3 * 4 + 4 <= usize::MAX,
    ensures
        text@ == base64_text(bytes@),
        text@.len() == base64_len(bytes@.len()),
        vstd::utf8::is_ascii_chars(text@),
        base64_bytes(text@) == Some(bytes@),
{
    base64::encode(bytes)
}

/// `base64::decode`: the bytes of a padded text in the standard alphabet,
/// or `None` for a text that is none. It panics only where four times the
/// length of the text overflows.
#[verifier::external_body]
pub(crate) fn base64_decode(text: &str) -> (bytes: Option<Vec<u8>>)
    requires
        text.spec_bytes().len() <= usize::MAX / 4,
    ensures
        decoded_view(bytes) == base64_bytes(text@),
{
    base64::decode(text).ok()
}

/// `base64::encode_config` with `URL_SAFE`: the padded text of the bytes in
/// the URL-safe alphabet, which is part of ASCII, four characters for every
/// three bytes begun. It panics only where that length overflows.
/// `base64::decode_config` with `URL_SAFE` reads the bytes back from it.
#[verifier::external_body]
pub(crate) fn base64url_encode(bytes: &Vec<u8>) -> (text: String)
    requires
        bytes@.len() / 3 * 4 + 4 <= usize::MAX,
    ensures
        text@ == base64url_text(bytes@),
        text@.len() == base64_len(bytes@.len()),
        vstd::utf8::is_ascii_chars(text@),
        base64url_bytes(text@) == Some(bytes@),
{
    base64::encode_config(bytes, base64::URL_SAFE)
}

/// `base64::decode_config` with `URL_SAFE`: the bytes of a padded text in
/// the URL-safe alphabet, or `None` for a text that is none. It panics only
/// where four times the length of the text overflows.
#[verifier::external_body]
pub(crate) fn base64url_decode(text: &str) -> (bytes: Option<Vec<u8>>)
    requires
        text.spec_bytes().len() <= usize::MAX / 4,
    ensures
        decoded_view(bytes) == base64url_bytes(text@),
{
    base64::decode_config(text, base64::URL_SAFE).ok()
}

/// `reed_solomon::Encoder::encode` of an encoder made with `ecc_len`: the
/// data followed by `ecc_len` parity bytes. A block holds at most 255 bytes.
/// A decoder made with the same `ecc_len` finds the block not corrupted.
#[verifier::external_body]
pub(crate) fn rs_encode(ecc_len: usize, data: &Vec<u8>) -> (block: Vec<u8>)
    requires
        data@.len() + ecc_len <= 255,
    ensures
        block@ == data@ + rs_parity(ecc_len, data@),
        block@.len() == data@.len() + ecc_len,
        !rs_corrupted(ecc_len, block@),
{
    reed_solomon::Encoder::new(ecc_len).encode(data).to_vec()
}

/// `reed_solomon::Decoder::is_corrupted` of a decoder made with `ecc_len`:
/// whether one of the `ecc_len` syndromes of the block is not zero. It reads
/// the first byte of the block, so the block is not empty; a block holds at
/// most 255 bytes, and so no more parity bytes than that.
#[verifier::external_body]
pub(crate) fn rs_is_corrupted(ecc_len: usize, block: &Vec<u8>) -> (corrupted: bool)
    requires
        ecc_len <= 255,
        0 < block@.len() <= 255,
    ensures
        corrupted == rs_corrupted(ecc_len, block@),
{
    reed_solomon::Decoder::new(ecc_len).is_corrupted(block)
}

} // verus!
