//! The cryptography provider: signatures, key exchange, authenticated
//! encryption and password hashing of the crate dryoc.
//!
//! Nothing in this file is proved. Each function here makes one call into
//! dryoc, and its contract says what dryoc's documentation and source say of
//! that call. What a call computes is given a name; the rest of the library
//! states its own contracts over these names.

use vstd::prelude::*;

verus! {

/// Length of a seed.
pub const SEEDSIZE: usize = 32;

/// Length of a public signing key.
pub const SIGN_PUBLICKEYBYTES: usize = 32;

/// Length of a private signing key.
pub const SIGN_SECRETKEYBYTES: usize = 64;

/// Length of a signature.
pub const SIGNATUREBYTES: usize = 64;

/// Length of a public encryption key.
pub const KX_PUBLICKEYBYTES: usize = 32;

/// Length of a private encryption key.
pub const KX_SECRETKEYBYTES: usize = 32;

/// Length of a session key, and of the key of the authenticated cipher.
pub const SESSIONKEYBYTES: usize = 32;

/// Length of a nonce of the authenticated cipher.
pub const NONCEBYTES: usize = 24;

/// Length of the tag that the authenticated cipher appends.
pub const ABYTES: usize = 16;

/// Length of the salt of the password hash.
pub const SALTBYTES: usize = 16;

/// The signing keypair (public, private) that `crypto_sign_seed_keypair`
/// derives from a seed.
pub uninterp spec fn sign_keypair_of(seed: Seq<u8>) -> (Seq<u8>, Seq<u8>);

/// The encryption keypair (public, private) that `crypto_kx_seed_keypair`
/// derives from a seed.
pub uninterp spec fn kx_keypair_of(seed: Seq<u8>) -> (Seq<u8>, Seq<u8>);

/// The signature that `crypto_sign_detached` makes of a message with a
/// private key.
pub uninterp spec fn signature_of(secret_key: Seq<u8>, message: Seq<u8>) -> Seq<u8>;

/// Whether `crypto_sign_verify_detached` accepts a signature of a message
/// under a public key.
pub uninterp spec fn signature_verifies(
    public_key: Seq<u8>,
    signature: Seq<u8>,
    message: Seq<u8>,
) -> bool;

/// The session keys (receiving, sending) that `crypto_kx_client_session_keys`
/// derives, or `None` where it refuses the server's public key.
pub uninterp spec fn kx_client_keys(
    client_pk: Seq<u8>,
    client_sk: Seq<u8>,
    server_pk: Seq<u8>,
) -> Option<(Seq<u8>, Seq<u8>)>;

/// The session keys (receiving, sending) that `crypto_kx_server_session_keys`
/// derives, or `None` where it refuses the client's public key.
pub uninterp spec fn kx_server_keys(
    server_pk: Seq<u8>,
    server_sk: Seq<u8>,
    client_pk: Seq<u8>,
) -> Option<(Seq<u8>, Seq<u8>)>;

/// The ciphertext with its tag that
/// `crypto_aead_xchacha20poly1305_ietf_encrypt` makes of a message, without
/// associated data.
pub uninterp spec fn aead_sealed(message: Seq<u8>, key: Seq<u8>, nonce: Seq<u8>) -> Seq<u8>;

/// The message that `crypto_aead_xchacha20poly1305_ietf_decrypt` recovers
/// from a ciphertext with its tag, without associated data, or `None` where
/// the tag does not verify.
pub uninterp spec fn aead_opened(cipher: Seq<u8>, key: Seq<u8>, nonce: Seq<u8>) -> Option<
    Seq<u8>,
>;

/// The key of `len` bytes that `crypto_pwhash` derives with Argon2id from a
/// password and a salt under the given cost limits.
pub uninterp spec fn password_key(
    password: Seq<u8>,
    salt: Seq<u8>,
    opslimit: u64,
    memlimit: usize,
    len: nat,
) -> Seq<u8>;

/// Whether (public, private) is the signing keypair of some seed.
pub open spec fn is_sign_keypair(public_key: Seq<u8>, secret_key: Seq<u8>) -> bool {
    exists|seed: Seq<u8>|
        seed.len() == SEEDSIZE && #[trigger] sign_keypair_of(seed) == (public_key, secret_key)
}

/// Whether (public, private) is the encryption keypair of some seed.
pub open spec fn is_kx_keypair(public_key: Seq<u8>, secret_key: Seq<u8>) -> bool {
    exists|seed: Seq<u8>|
        seed.len() == SEEDSIZE && #[trigger] kx_keypair_of(seed) == (public_key, secret_key)
}

/// A pair of session keys as a pair of byte sequences.
pub open spec fn session_view(keys: Option<(Vec<u8>, Vec<u8>)>) -> Option<(Seq<u8>, Seq<u8>)> {
    match keys {
        Some((rx, tx)) => Some((rx@, tx@)),
        None => None,
    }
}

/// The session keys of the other side: what one side receives with, the
/// other sends with.
pub open spec fn mirrored(keys: Option<(Seq<u8>, Seq<u8>)>) -> Option<(Seq<u8>, Seq<u8>)> {
    match keys {
        Some((rx, tx)) => Some((tx, rx)),
        None => None,
    }
}

/// `crypto_sign_seed_keypair`: the Ed25519 keypair of a 32-byte seed, a
/// public key of 32 bytes and a private key of 64, which is the seed
/// followed by the public key. The same seed gives the same keypair.
#[verifier::external_body]
pub(crate) fn sign_seed_keypair(seed: &Vec<u8>) -> (keys: (Vec<u8>, Vec<u8>))
    requires
        seed@.len() == SEEDSIZE,
    ensures
        (keys.0@, keys.1@) == sign_keypair_of(seed@),
        keys.0@.len() == SIGN_PUBLICKEYBYTES,
        keys.1@.len() == SIGN_SECRETKEYBYTES,
        keys.1@ == seed@ + keys.0@,
{
    let seed: &[u8; 32] = seed.as_slice().try_into().unwrap();
    let (public_key, secret_key) = dryoc::classic::crypto_sign::crypto_sign_seed_keypair(seed);
    (public_key.to_vec(), secret_key.to_vec())
}

/// `crypto_kx_seed_keypair`: the key-exchange keypair of a 32-byte seed, 32
/// bytes each. The same seed gives the same keypair. Its one error is that
/// of a hash with an invalid output length, which the fixed length here
/// excludes; `None` stands for it.
#[verifier::external_body]
pub(crate) fn kx_seed_keypair(seed: &Vec<u8>) -> (keys: Option<(Vec<u8>, Vec<u8>)>)
    requires
        seed@.len() == SEEDSIZE,
    ensures
        session_view(keys) == Some(kx_keypair_of(seed@)),
        keys matches Some(pair) ==> pair.0@.len() == KX_PUBLICKEYBYTES && pair.1@.len()
            == KX_SECRETKEYBYTES,
{
    let seed: &[u8; 32] = seed.as_slice().try_into().unwrap();
    match dryoc::classic::crypto_kx::crypto_kx_seed_keypair(seed) {
        Ok((public_key, secret_key)) => Some((public_key.to_vec(), secret_key.to_vec())),
        Err(_) => None,
    }
}

/// `crypto_sign_detached`: the 64-byte signature of a message under a
/// 64-byte private key; it does not fail. A signature made with the private
/// key of a seed's keypair verifies under the public key of that keypair.
#[verifier::external_body]
pub(crate) fn sign_detached(message: &Vec<u8>, secret_key: &Vec<u8>) -> (signature: Vec<u8>)
    requires
        secret_key@.len() == SIGN_SECRETKEYBYTES,
    ensures
        signature@ == signature_of(secret_key@, message@),
        signature@.len() == SIGNATUREBYTES,
        forall|public_key: Seq<u8>| #[trigger]
            is_sign_keypair(public_key, secret_key@) ==> signature_verifies(
                public_key,
                signature@,
                message@,
            ),
{
    let secret_key: &[u8; 64] = secret_key.as_slice().try_into().unwrap();
    let mut signature = [0u8; 64];
    dryoc::classic::crypto_sign::crypto_sign_detached(&mut signature, message, secret_key)
        .unwrap();
    signature.to_vec()
}

/// `crypto_sign_verify_detached`: whether a 64-byte signature is one of the
/// message under a 32-byte public key. Each of its errors is a rejection.
#[verifier::external_body]
pub(crate) fn verify_detached(
    signature: &Vec<u8>,
    message: &Vec<u8>,
    public_key: &Vec<u8>,
) -> (valid: bool)
    requires
        signature@.len() == SIGNATUREBYTES,
        public_key@.len() == SIGN_PUBLICKEYBYTES,
    ensures
        valid == signature_verifies(public_key@, signature@, message@),
{
    let signature: &[u8; 64] = signature.as_slice().try_into().unwrap();
    let public_key: &[u8; 32] = public_key.as_slice().try_into().unwrap();
    dryoc::classic::crypto_sign::crypto_sign_verify_detached(signature, message, public_key)
        .is_ok()
}

/// `crypto_kx_client_session_keys`: the two 32-byte session keys of the
/// client side, the receiving key first, or `None` where the server's public
/// key is refused.
#[verifier::external_body]
pub(crate) fn kx_client_session(
    client_pk: &Vec<u8>,
    client_sk: &Vec<u8>,
    server_pk: &Vec<u8>,
) -> (keys: Option<(Vec<u8>, Vec<u8>)>)
    requires
        client_pk@.len() == KX_PUBLICKEYBYTES,
        client_sk@.len() == KX_SECRETKEYBYTES,
        server_pk@.len() == KX_PUBLICKEYBYTES,
    ensures
        session_view(keys) == kx_client_keys(client_pk@, client_sk@, server_pk@),
        keys matches Some(pair) ==> pair.0@.len() == SESSIONKEYBYTES && pair.1@.len()
            == SESSIONKEYBYTES,
{
    let client_pk: &[u8; 32] = client_pk.as_slice().try_into().unwrap();
    let client_sk: &[u8; 32] = client_sk.as_slice().try_into().unwrap();
    let server_pk: &[u8; 32] = server_pk.as_slice().try_into().unwrap();
    let (mut rx, mut tx) = ([0u8; 32], [0u8; 32]);
    match dryoc::classic::crypto_kx::crypto_kx_client_session_keys(
        &mut rx, &mut tx, client_pk, client_sk, server_pk,
    ) {
        Ok(()) => Some((rx.to_vec(), tx.to_vec())),
        Err(_) => None,
    }
}

/// `crypto_kx_server_session_keys`: the two 32-byte session keys of the
/// server side, the receiving key first, or `None` where the client's public
/// key is refused. Where both sides hold the keypair of a seed, the client
/// derives the same two keys in the other order: each side receives with the
/// key that the other sends with.
#[verifier::external_body]
pub(crate) fn kx_server_session(
    server_pk: &Vec<u8>,
    server_sk: &Vec<u8>,
    client_pk: &Vec<u8>,
) -> (keys: Option<(Vec<u8>, Vec<u8>)>)
    requires
        server_pk@.len() == KX_PUBLICKEYBYTES,
        server_sk@.len() == KX_SECRETKEYBYTES,
        client_pk@.len() == KX_PUBLICKEYBYTES,
    ensures
        session_view(keys) == kx_server_keys(server_pk@, server_sk@, client_pk@),
        keys matches Some(pair) ==> pair.0@.len() == SESSIONKEYBYTES && pair.1@.len()
            == SESSIONKEYBYTES,
        forall|client_sk: Seq<u8>|
            is_kx_keypair(server_pk@, server_sk@) && #[trigger] is_kx_keypair(
                client_pk@,
                client_sk,
            ) ==> kx_client_keys(client_pk@, client_sk, server_pk@) == mirrored(
                session_view(keys),
            ),
{
    let server_pk: &[u8; 32] = server_pk.as_slice().try_into().unwrap();
    let server_sk: &[u8; 32] = server_sk.as_slice().try_into().unwrap();
    let client_pk: &[u8; 32] = client_pk.as_slice().try_into().unwrap();
    let (mut rx, mut tx) = ([0u8; 32], [0u8; 32]);
    match dryoc::classic::crypto_kx::crypto_kx_server_session_keys(
        &mut rx, &mut tx, server_pk, server_sk, client_pk,
    ) {
        Ok(()) => Some((rx.to_vec(), tx.to_vec())),
        Err(_) => None,
    }
}

/// `crypto_aead_xchacha20poly1305_ietf_encrypt` without associated data: it
/// fills `cipher`, which is one tag longer than the message, with the
/// ciphertext and its tag. With these lengths it does not fail. Decrypting
/// the result under the same key and nonce gives the message back.
#[verifier::external_body]
pub(crate) fn aead_encrypt(
    cipher: &mut Vec<u8>,
    message: &Vec<u8>,
    nonce: &Vec<u8>,
    key: &Vec<u8>,
)
    requires
        old(cipher)@.len() == message@.len() + ABYTES,
        nonce@.len() == NONCEBYTES,
        key@.len() == SESSIONKEYBYTES,
    ensures
        final(cipher)@ == aead_sealed(message@, key@, nonce@),
        final(cipher)@.len() == old(cipher)@.len(),
        aead_opened(final(cipher)@, key@, nonce@) == Some(message@),
{
    let nonce: &[u8; 24] = nonce.as_slice().try_into().unwrap();
    let key: &[u8; 32] = key.as_slice().try_into().unwrap();
    dryoc::classic::crypto_aead_xchacha20poly1305_ietf::crypto_aead_xchacha20poly1305_ietf_encrypt(
        cipher, message, None, nonce, key,
    ).unwrap();
}

/// `crypto_aead_xchacha20poly1305_ietf_decrypt` without associated data: it
/// checks the tag of `cipher` and, where it verifies, fills `message`, which
/// is one tag shorter, with the plaintext. Where it does not, `message` is
/// left as it was.
#[verifier::external_body]
pub(crate) fn aead_decrypt(
    message: &mut Vec<u8>,
    cipher: &Vec<u8>,
    nonce: &Vec<u8>,
    key: &Vec<u8>,
) -> (opened: bool)
    requires
        cipher@.len() == old(message)@.len() + ABYTES,
        nonce@.len() == NONCEBYTES,
        key@.len() == SESSIONKEYBYTES,
    ensures
        opened ==> aead_opened(cipher@, key@, nonce@) == Some(final(message)@),
        !opened ==> aead_opened(cipher@, key@, nonce@) is None && final(message)@ == old(
            message,
        )@,
        final(message)@.len() == old(message)@.len(),
{
    let nonce: &[u8; 24] = nonce.as_slice().try_into().unwrap();
    let key: &[u8; 32] = key.as_slice().try_into().unwrap();
    dryoc::classic::crypto_aead_xchacha20poly1305_ietf::crypto_aead_xchacha20poly1305_ietf_decrypt(
        message, cipher, None, nonce, key,
    ).is_ok()
}

/// `crypto_pwhash` with Argon2id: it fills `key` with the key derived from
/// the password and the salt under the cost limits. It fails on lengths or
/// limits that it does not accept, among them a salt of another length than
/// 16 bytes, and where it cannot have the memory; of a failure nothing more
/// is claimed than that the length of `key` stays.
#[verifier::external_body]
pub(crate) fn password_hash(
    key: &mut Vec<u8>,
    password: &Vec<u8>,
    salt: &Vec<u8>,
    opslimit: u64,
    memlimit: usize,
) -> (hashed: bool)
    ensures
        final(key)@.len() == old(key)@.len(),
        hashed ==> salt@.len() == SALTBYTES,
        hashed ==> final(key)@ == password_key(
            password@,
            salt@,
            opslimit,
            memlimit,
            old(key)@.len(),
        ),
{
    dryoc::classic::crypto_pwhash::crypto_pwhash(
        key, password, salt, opslimit, memlimit,
        dryoc::classic::crypto_pwhash::PasswordHashAlgorithm::Argon2id13,
    ).is_ok()
}

} // verus!
