//! The keypair of a peer: its identity string and its two private keys.

use crate::error::KeyError;
use crate::identity::{decode_id, encode_id, identity_keys, identity_text, IDENTITY_LEN};
use crate::provider::{
    is_kx_keypair, is_sign_keypair, kx_keypair_of, kx_seed_keypair, sign_detached,
    sign_keypair_of, sign_seed_keypair, signature_of, signature_verifies, verify_detached,
    KX_SECRETKEYBYTES, SIGNATUREBYTES, SIGN_SECRETKEYBYTES,
};
pub use crate::provider::SEEDSIZE;
use crate::secbuf::SecBuf;
use vstd::prelude::*;

verus! {

/// The identity of a peer with the private keys that belong to it.
pub struct Keypair {
    /// The identity string: the public signing key and the public encryption
    /// key. It holds no private material.
    pub pub_keys: String,
    /// The private signing key, 64 bytes.
    pub sign_priv: SecBuf,
    /// The private encryption key, 32 bytes.
    pub enc_priv: SecBuf,
}

/// The status with which a verification reports a signature that matches.
pub const SIGNATURE_VALID: i32 = 0;

/// The status with which a verification reports a signature that does not
/// match.
pub const SIGNATURE_INVALID: i32 = -1;

/// What verifying a signature of `data` against an identity gives: the
/// status, or `DecodeFailure` where the identity string is malformed. A
/// signature of another length than 64 bytes does not match.
pub open spec fn verify_status(id: Seq<char>, signature: Seq<u8>, data: Seq<u8>) -> Result<
    i32,
    KeyError,
> {
    match identity_keys(id) {
        None => Err(KeyError::DecodeFailure),
        Some((sign_pub, enc_pub)) => if signature.len() == SIGNATUREBYTES && signature_verifies(
            sign_pub,
            signature,
            data,
        ) {
            Ok(SIGNATURE_VALID)
        } else {
            Ok(SIGNATURE_INVALID)
        },
    }
}

/// Verifies a signature of `data` against the public signing key of an
/// identity. A signature that does not match is no error: it is reported by
/// the status.
pub fn verify_signature(id: &str, signature: &SecBuf, data: &SecBuf) -> (status: Result<
    i32,
    KeyError,
>)
    ensures
        status == verify_status(id@, signature@, data@),
{
    let sign_pub: SecBuf = match decode_id(id) {
        Ok((sign_pub, enc_pub)) => sign_pub,
        Err(e) => {
            return Err(KeyError::DecodeFailure);
        },
    };
    if signature.len() != SIGNATUREBYTES {
        return Ok(SIGNATURE_INVALID);
    }
    if verify_detached(signature.read_lock(), data.read_lock(), sign_pub.read_lock()) {
        Ok(SIGNATURE_VALID)
    } else {
        Ok(SIGNATURE_INVALID)
    }
}

/// Derivation is repeatable: two keypairs derived from the same seed have
/// the same identity string and the same private keys.
pub proof fn lemma_derivation_repeatable(first: Keypair, second: Keypair, seed: Seq<u8>)
    requires
        first.is_derived_from(seed),
        second.is_derived_from(seed),
    ensures
        first.pub_keys@ == second.pub_keys@,
        first.sign_priv@ == second.sign_priv@,
        first.enc_priv@ == second.enc_priv@,
{
}

impl Keypair {
    /// Whether this is the keypair that `new_from_seed` derives from `seed`.
    pub open spec fn is_derived_from(&self, seed: Seq<u8>) -> bool {
        &&& seed.len() == SEEDSIZE
        &&& self.pub_keys@ == identity_text(sign_keypair_of(seed).0, kx_keypair_of(seed).0)
        &&& self.sign_priv@ == sign_keypair_of(seed).1
        &&& self.enc_priv@ == kx_keypair_of(seed).1
    }

    /// Whether the keypair is well formed: the private keys have their
    /// lengths, and the identity string is the identity of the two public
    /// keys that it holds.
    pub open spec fn well_formed(&self) -> bool {
        &&& self.sign_priv@.len() == SIGN_SECRETKEYBYTES
        &&& self.enc_priv@.len() == KX_SECRETKEYBYTES
        &&& match identity_keys(self.pub_keys@) {
            Some((sign_pub, enc_pub)) => self.pub_keys@ == identity_text(sign_pub, enc_pub),
            None => false,
        }
    }

    /// Whether the parts of the keypair belong together: it is well formed,
    /// and each public key of its identity is the public half of the private
    /// key held.
    pub open spec fn consistent(&self) -> bool {
        &&& self.well_formed()
        &&& match identity_keys(self.pub_keys@) {
            Some((sign_pub, enc_pub)) => {
                &&& is_sign_keypair(sign_pub, self.sign_priv@)
                &&& is_kx_keypair(enc_pub, self.enc_priv@)
            },
            None => false,
        }
    }

    /// Derives the keypair of a seed of 32 bytes. The result depends on the
    /// bytes of the seed alone: the same seed gives the same identity and the
    /// same private keys. Both private keys are of the secure class. A seed
    /// of another length is refused with `PrimitiveFailure`.
    pub fn new_from_seed(seed: &SecBuf) -> (derived: Result<Keypair, KeyError>)
        ensures
            match derived {
                Ok(keypair) => {
                    &&& keypair.is_derived_from(seed@)
                    &&& identity_keys(keypair.pub_keys@) == Some(
                        (sign_keypair_of(seed@).0, kx_keypair_of(seed@).0),
                    )
                    &&& keypair.sign_priv@.subrange(0, SEEDSIZE as int) == seed@
                    &&& keypair.consistent()
                    &&& keypair.pub_keys@.len() == IDENTITY_LEN
                    &&& keypair.sign_priv@.len() == SIGN_SECRETKEYBYTES
                    &&& keypair.enc_priv@.len() == KX_SECRETKEYBYTES
                    &&& keypair.sign_priv.is_secure()
                    &&& keypair.enc_priv.is_secure()
                },
                Err(e) => e == KeyError::PrimitiveFailure && seed@.len() != SEEDSIZE,
            },
    {
        if seed.len() != SEEDSIZE {
            return Err(KeyError::PrimitiveFailure);
        }
        let (sign_public, sign_secret) = sign_seed_keypair(seed.read_lock());
        let (enc_public, enc_secret) = match kx_seed_keypair(seed.read_lock()) {
            Some(keys) => keys,
            None => {
                return Err(KeyError::PrimitiveFailure);
            },
        };
        let sign_pub: SecBuf = SecBuf::from_bytes(sign_public);
        let enc_pub: SecBuf = SecBuf::from_bytes(enc_public);
        let sign_priv: SecBuf = SecBuf::from_secret(sign_secret);
        let enc_priv: SecBuf = SecBuf::from_secret(enc_secret);
        let pub_keys: String = match encode_id(&sign_pub, &enc_pub) {
            Ok(id) => id,
            Err(e) => {
                return Err(KeyError::PrimitiveFailure);
            },
        };
        Ok(Keypair { pub_keys, sign_priv, enc_priv })
    }

    /// The identity string of the keypair.
    pub fn get_id(&self) -> (id: String)
        ensures
            id@ == self.pub_keys@,
    {
        self.pub_keys.clone()
    }

    /// Signs `data` with the private signing key and puts the signature of
    /// 64 bytes into `signature`, whose class stays. Where the keypair is
    /// consistent, `verify` accepts the signature for the same data. A private
    /// key of another length than 64 bytes is refused with
    /// `PrimitiveFailure`, and `signature` is then left as it was.
    pub fn sign(&self, data: &SecBuf, signature: &mut SecBuf) -> (done: Result<(), KeyError>)
        ensures
            match done {
                Ok(()) => {
                    &&& self.sign_priv@.len() == SIGN_SECRETKEYBYTES
                    &&& final(signature)@ == signature_of(self.sign_priv@, data@)
                    &&& final(signature)@.len() == SIGNATUREBYTES
                    &&& final(signature).is_secure() == old(signature).is_secure()
                    &&& self.consistent() ==> verify_status(
                        self.pub_keys@,
                        final(signature)@,
                        data@,
                    ) == Ok::<i32, KeyError>(SIGNATURE_VALID)
                },
                Err(e) => {
                    &&& e == KeyError::PrimitiveFailure
                    &&& self.sign_priv@.len() != SIGN_SECRETKEYBYTES
                    &&& *final(signature) == *old(signature)
                },
            },
    {
        if self.sign_priv.len() != SIGN_SECRETKEYBYTES {
            return Err(KeyError::PrimitiveFailure);
        }
        let bytes: Vec<u8> = sign_detached(data.read_lock(), self.sign_priv.read_lock());
        signature.assign(bytes);
        Ok(())
    }

    /// Verifies a signature of `data` against the public signing key of this
    /// keypair's identity: 0 where it matches, -1 where it does not.
    /// `DecodeFailure` says that the identity string is malformed.
    pub fn verify(&self, signature: &SecBuf, data: &SecBuf) -> (status: Result<i32, KeyError>)
        ensures
            status == verify_status(self.pub_keys@, signature@, data@),
    {
        verify_signature(self.pub_keys.as_str(), signature, data)
    }
}

} // verus!
