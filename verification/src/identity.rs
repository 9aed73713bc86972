//! The identity string of a peer: its two public keys and a checksum over
//! them, as one text of fixed width.

use crate::bytes::{append_bytes, copy_range};
use crate::encoding::{
    base64url_bytes, base64url_decode, base64url_encode, base64url_text, rs_corrupted, rs_encode,
    rs_is_corrupted, rs_parity,
};
use crate::error::KeyError;
use crate::provider::{KX_PUBLICKEYBYTES, SIGN_PUBLICKEYBYTES};
use crate::secbuf::SecBuf;
use vstd::prelude::*;
use vstd::utf8::{is_ascii_chars, is_ascii_chars_encode_utf8};

verus! {

/// Number of checksum bytes that follow the two public keys.
pub const PARITY_LEN: usize = 5;

/// Number of bytes of the two public keys together.
pub const KEYS_LEN: usize = 64;

/// Number of bytes that an identity string encodes: the two public keys and
/// the checksum.
pub const BLOCK_LEN: usize = 69;

/// Number of characters of an identity string.
pub const IDENTITY_LEN: usize = 92;

/// The identity string of a signing and an encryption public key: the text
/// of the signing key, the encryption key and the checksum over the two.
pub open spec fn identity_text(sign_pub: Seq<u8>, enc_pub: Seq<u8>) -> Seq<char> {
    base64url_text((sign_pub + enc_pub) + rs_parity(PARITY_LEN, sign_pub + enc_pub))
}

/// The two public keys that an identity string holds, the signing key first,
/// or `None` for a text that is no identity string: one that is not made of
/// 92 ASCII characters, that is no text of 69 bytes, or whose checksum does
/// not match.
pub open spec fn identity_keys(id: Seq<char>) -> Option<(Seq<u8>, Seq<u8>)> {
    if !is_ascii_chars(id) || id.len() != IDENTITY_LEN {
        None
    } else {
        match base64url_bytes(id) {
            Some(block) => if block.len() == BLOCK_LEN && !rs_corrupted(PARITY_LEN, block) {
                Some(
                    (
                        block.subrange(0, SIGN_PUBLICKEYBYTES as int),
                        block.subrange(SIGN_PUBLICKEYBYTES as int, KEYS_LEN as int),
                    ),
                )
            } else {
                None
            },
            None => None,
        }
    }
}

/// Encodes a signing and an encryption public key, of 32 bytes each, as an
/// identity string of 92 characters, from which `decode_id` reads both keys
/// back. Keys of another length are refused with `DecodeFailure`.
pub fn encode_id(sign_pub: &SecBuf, enc_pub: &SecBuf) -> (id: Result<String, KeyError>)
    ensures
        match id {
            Ok(text) => {
                &&& sign_pub@.len() == SIGN_PUBLICKEYBYTES
                &&& enc_pub@.len() == KX_PUBLICKEYBYTES
                &&& text@ == identity_text(sign_pub@, enc_pub@)
                &&& text@.len() == IDENTITY_LEN
                &&& identity_keys(text@) == Some((sign_pub@, enc_pub@))
            },
            Err(e) => {
                &&& e == KeyError::DecodeFailure
                &&& (sign_pub@.len() != SIGN_PUBLICKEYBYTES || enc_pub@.len()
                    != KX_PUBLICKEYBYTES)
            },
        },
{
    if sign_pub.len() != SIGN_PUBLICKEYBYTES || enc_pub.len() != KX_PUBLICKEYBYTES {
        return Err(KeyError::DecodeFailure);
    }
    let mut keys: Vec<u8> = copy_range(sign_pub.read_lock(), 0, SIGN_PUBLICKEYBYTES);
    append_bytes(&mut keys, enc_pub.read_lock());
    assert(keys@ =~= sign_pub@ + enc_pub@);
    let block: Vec<u8> = rs_encode(PARITY_LEN, &keys);
    let text: String = base64url_encode(&block);
    Ok(text)
}

/// Decodes an identity string into its signing and its encryption public
/// key, both of the insecure class. A text that is no identity string is
/// refused with `DecodeFailure`.
pub fn decode_id(id: &str) -> (keys: Result<(SecBuf, SecBuf), KeyError>)
    ensures
        match keys {
            Ok((sign_pub, enc_pub)) => {
                &&& identity_keys(id@) == Some((sign_pub@, enc_pub@))
                &&& sign_pub@.len() == SIGN_PUBLICKEYBYTES
                &&& enc_pub@.len() == KX_PUBLICKEYBYTES
                &&& !sign_pub.is_secure()
                &&& !enc_pub.is_secure()
            },
            Err(e) => e == KeyError::DecodeFailure && identity_keys(id@) is None,
        },
{
    if !id.is_ascii() {
        return Err(KeyError::DecodeFailure);
    }
    proof {
        is_ascii_chars_encode_utf8(id@);
    }
    if id.unicode_len() != IDENTITY_LEN {
        return Err(KeyError::DecodeFailure);
    }
    let block: Vec<u8> = match base64url_decode(id) {
        Some(block) => block,
        None => {
            return Err(KeyError::DecodeFailure);
        },
    };
    if block.len() != BLOCK_LEN {
        return Err(KeyError::DecodeFailure);
    }
    if rs_is_corrupted(PARITY_LEN, &block) {
        return Err(KeyError::DecodeFailure);
    }
    let sign_pub: Vec<u8> = copy_range(&block, 0, SIGN_PUBLICKEYBYTES);
    let enc_pub: Vec<u8> = copy_range(&block, SIGN_PUBLICKEYBYTES, KEYS_LEN);
    Ok((SecBuf::from_bytes(sign_pub), SecBuf::from_bytes(enc_pub)))
}

} // verus!
