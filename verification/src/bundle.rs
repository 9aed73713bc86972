//! Key bundles: a keypair sealed under a passphrase, as a record that can be
//! stored and carried.
//!
//! The data of a bundle has two layers. The inner one is the text of the
//! sealed record, see `record`; the outer one is the base64 text of those
//! bytes.

use crate::bytes::{append_bytes, copy_range, zeroed};
use crate::encoding::{base64_bytes, base64_decode, base64_encode, base64_text};
use crate::error::KeyError;
use crate::identity::{decode_id, encode_id, identity_keys, identity_text};
use crate::keypair::Keypair;
use crate::provider::{
    aead_decrypt, aead_encrypt, aead_opened, aead_sealed, password_hash, password_key, ABYTES,
    NONCEBYTES, SALTBYTES, SESSIONKEYBYTES,
};
use crate::record::{
    decode_record, encode_record, lemma_record_text_len, record_of, record_text,
    ReturnBundleData,
};
use crate::secbuf::SecBuf;
use vstd::prelude::*;
use vstd::utf8::{encode_utf8, is_ascii_chars_encode_utf8};

verus! {

/// A keypair sealed under a passphrase.
pub struct KeyBundle {
    /// What kind of bundle this is: always `hcKeypair`.
    pub bundle_type: String,
    /// A description of the bundle, as its maker gave it.
    pub hint: String,
    /// The sealed record, as base64 text of its text.
    pub data: String,
}

/// Number of passes of the password hash.
pub const PW_OPSLIMIT: u64 = 2;

/// Number of bytes of memory of the password hash.
pub const PW_MEMLIMIT: usize = 67108864;

/// Number of bytes of the key material of a keypair: the two public keys
/// and the two private keys.
pub const KEY_MATERIAL_LEN: usize = 160;

/// The key that a passphrase and a salt give.
pub open spec fn passphrase_key(passphrase: Seq<u8>, salt: Seq<u8>) -> Seq<u8> {
    password_key(passphrase, salt, PW_OPSLIMIT, PW_MEMLIMIT, SESSIONKEYBYTES as nat)
}

/// Whether a salt, a nonce and a key are what sealing data takes.
pub open spec fn sealing_lengths_fit(
    data: Seq<u8>,
    key: Seq<u8>,
    salt: Seq<u8>,
    nonce: Seq<u8>,
) -> bool {
    &&& key.len() == SESSIONKEYBYTES
    &&& salt.len() == SALTBYTES
    &&& nonce.len() == NONCEBYTES
    &&& data.len() + ABYTES <= usize::MAX
}

/// Whether the salt, the nonce and the ciphertext of a record have lengths
/// with which the record can be opened.
pub open spec fn record_lengths_fit(salt: Seq<u8>, nonce: Seq<u8>, cipher: Seq<u8>) -> bool {
    salt.len() == SALTBYTES && nonce.len() == NONCEBYTES && cipher.len() >= ABYTES
}

/// What a record gives when it is opened with a key: `DecodeFailure` where
/// the salt or the nonce has not its length or the ciphertext is shorter
/// than a tag, `PrimitiveFailure` where the key has not its length,
/// `AuthenticationFailure` where the tag does not verify, and else the data.
pub open spec fn unsealed_with(
    salt: Seq<u8>,
    nonce: Seq<u8>,
    cipher: Seq<u8>,
    key: Seq<u8>,
) -> Result<Seq<u8>, KeyError> {
    if !record_lengths_fit(salt, nonce, cipher) {
        Err(KeyError::DecodeFailure)
    } else if key.len() != SESSIONKEYBYTES {
        Err(KeyError::PrimitiveFailure)
    } else {
        match aead_opened(cipher, key, nonce) {
            Some(data) => Ok(data),
            None => Err(KeyError::AuthenticationFailure),
        }
    }
}

/// The key material of a keypair: the public signing key, the public
/// encryption key, the private signing key and the private encryption key,
/// or `None` where the identity string is malformed.
pub open spec fn key_material(id: Seq<char>, sign_priv: Seq<u8>, enc_priv: Seq<u8>) -> Option<
    Seq<u8>,
> {
    match identity_keys(id) {
        Some((sign_pub, enc_pub)) => Some(sign_pub + enc_pub + sign_priv + enc_priv),
        None => None,
    }
}

/// The keypair that key material holds, as its identity string, its private
/// signing key and its private encryption key, or `DecodeFailure` for
/// material of another length than 160 bytes.
pub open spec fn keypair_of_material(material: Seq<u8>) -> Result<
    (Seq<char>, Seq<u8>, Seq<u8>),
    KeyError,
> {
    if material.len() != KEY_MATERIAL_LEN {
        Err(KeyError::DecodeFailure)
    } else {
        Ok(
            (
                identity_text(material.subrange(0, 32), material.subrange(32, 64)),
                material.subrange(64, 128),
                material.subrange(128, 160),
            ),
        )
    }
}

/// The data of the bundle that seals key material under a key with a salt
/// and a nonce.
pub open spec fn bundle_data(material: Seq<u8>, key: Seq<u8>, salt: Seq<u8>, nonce: Seq<u8>) -> Seq<
    char,
> {
    base64_text(record_text(salt, nonce, aead_sealed(material, key, nonce)))
}

/// The record that the data of a bundle holds: `None` for data that is
/// longer than a quarter of the address space, that is no base64 text, or
/// that is not the base64 text of the text of a record.
pub open spec fn record_of_data(data: Seq<char>) -> Option<(Seq<u8>, Seq<u8>, Seq<u8>)> {
    if encode_utf8(data).len() > usize::MAX / 4 {
        None
    } else {
        match base64_bytes(data) {
            Some(text) => record_of(text),
            None => None,
        }
    }
}

/// The keypair that the data of a bundle gives under a passphrase, as its
/// identity string and its two private keys: `DecodeFailure` where the data
/// holds no record, else what the record gives when it is opened with the
/// key of the passphrase and its salt, and of the data opened the keypair
/// that it holds.
pub open spec fn restored(data: Seq<char>, passphrase: Seq<u8>) -> Result<
    (Seq<char>, Seq<u8>, Seq<u8>),
    KeyError,
> {
    match record_of_data(data) {
        None => Err(KeyError::DecodeFailure),
        Some((salt, nonce, cipher)) => match unsealed_with(
            salt,
            nonce,
            cipher,
            passphrase_key(passphrase, salt),
        ) {
            Err(e) => Err(e),
            Ok(material) => keypair_of_material(material),
        },
    }
}

/// A keypair, or the error in its place, as an identity string and two
/// private keys.
pub open spec fn keypair_view(keypair: Result<Keypair, KeyError>) -> Result<
    (Seq<char>, Seq<u8>, Seq<u8>),
    KeyError,
> {
    match keypair {
        Ok(keys) => Ok((keys.pub_keys@, keys.sign_priv@, keys.enc_priv@)),
        Err(e) => Err(e),
    }
}

/// A sealed record, or the error in its place, as three byte sequences.
pub open spec fn sealed_view(sealed: Result<ReturnBundleData, KeyError>) -> Result<
    (Seq<u8>, Seq<u8>, Seq<u8>),
    KeyError,
> {
    match sealed {
        Ok(record) => Ok((record.salt@, record.nonce@, record.cipher@)),
        Err(e) => Err(e),
    }
}

/// Data that was opened, or the error in its place, as a byte sequence.
pub open spec fn data_view(opened: Result<SecBuf, KeyError>) -> Result<Seq<u8>, KeyError> {
    match opened {
        Ok(data) => Ok(data@),
        Err(e) => Err(e),
    }
}

/// Derives the key of a passphrase and a salt, in a buffer of the secure
/// class. `None` says that the password hash failed: it does so for a salt
/// of another length than 16 bytes, and it may where it cannot have its
/// memory.
pub fn pw_hash(passphrase: &SecBuf, salt: &Vec<u8>) -> (key: Option<SecBuf>)
    ensures
        key matches Some(derived) ==> {
            &&& salt@.len() == SALTBYTES
            &&& derived@ == passphrase_key(passphrase@, salt@)
            &&& derived@.len() == SESSIONKEYBYTES
            &&& derived.is_secure()
        },
{
    let mut bytes: Vec<u8> = zeroed(SESSIONKEYBYTES);
    if password_hash(&mut bytes, passphrase.read_lock(), salt, PW_OPSLIMIT, PW_MEMLIMIT) {
        Some(SecBuf::from_secret(bytes))
    } else {
        let spent: SecBuf = SecBuf::from_secret(bytes);
        None
    }
}

/// Seals data under a key with a given salt and a given nonce: the record
/// holds the salt, the nonce and the data encrypted under the key and the
/// nonce, and opening it with the key gives the data back.
/// `PrimitiveFailure` says that the key, the salt or the nonce has not its
/// length, or that no tag can be appended to the data.
pub fn pw_enc_with(data: &SecBuf, key: &SecBuf, salt: Vec<u8>, nonce: Vec<u8>) -> (sealed: Result<
    ReturnBundleData,
    KeyError,
>)
    ensures
        sealed_view(sealed) == if sealing_lengths_fit(data@, key@, salt@, nonce@) {
            Ok::<(Seq<u8>, Seq<u8>, Seq<u8>), KeyError>(
                (salt@, nonce@, aead_sealed(data@, key@, nonce@)),
            )
        } else {
            Err::<(Seq<u8>, Seq<u8>, Seq<u8>), KeyError>(KeyError::PrimitiveFailure)
        },
        sealed matches Ok(record) ==> unsealed_with(
            record.salt@,
            record.nonce@,
            record.cipher@,
            key@,
        ) == Ok::<Seq<u8>, KeyError>(data@),
{
    if key.len() != SESSIONKEYBYTES || salt.len() != SALTBYTES || nonce.len() != NONCEBYTES
        || data.len() > usize::MAX - ABYTES {
        return Err(KeyError::PrimitiveFailure);
    }
    let mut cipher: Vec<u8> = zeroed(data.len() + ABYTES);
    aead_encrypt(&mut cipher, data.read_lock(), &nonce, key.read_lock());
    Ok(ReturnBundleData { salt, nonce, cipher })
}

/// Seals data under a passphrase: draws a fresh salt and a fresh nonce,
/// derives the key of the passphrase and the salt, and seals the data with
/// them as `pw_enc_with` does. `PrimitiveFailure` says that the random
/// source or the password hash failed, or that no tag can be appended to the
/// data.
pub fn pw_enc(data: &SecBuf, passphrase: &SecBuf) -> (sealed: Result<ReturnBundleData, KeyError>)
    ensures
        match sealed {
            Ok(record) => {
                &&& record.salt@.len() == SALTBYTES
                &&& record.nonce@.len() == NONCEBYTES
                &&& record.cipher@ == aead_sealed(
                    data@,
                    passphrase_key(passphrase@, record.salt@),
                    record.nonce@,
                )
                &&& unsealed_with(
                    record.salt@,
                    record.nonce@,
                    record.cipher@,
                    passphrase_key(passphrase@, record.salt@),
                ) == Ok::<Seq<u8>, KeyError>(data@)
            },
            Err(e) => e == KeyError::PrimitiveFailure,
        },
{
    let mut salt: SecBuf = SecBuf::with_insecure(SALTBYTES);
    match salt.randomize() {
        Ok(()) => {},
        Err(e) => {
            return Err(KeyError::PrimitiveFailure);
        },
    }
    let mut nonce: SecBuf = SecBuf::with_insecure(NONCEBYTES);
    match nonce.randomize() {
        Ok(()) => {},
        Err(e) => {
            return Err(KeyError::PrimitiveFailure);
        },
    }
    let salt_bytes: Vec<u8> = copy_range(salt.read_lock(), 0, SALTBYTES);
    let nonce_bytes: Vec<u8> = copy_range(nonce.read_lock(), 0, NONCEBYTES);
    let key: SecBuf = match pw_hash(passphrase, &salt_bytes) {
        Some(key) => key,
        None => {
            return Err(KeyError::PrimitiveFailure);
        },
    };
    pw_enc_with(data, &key, salt_bytes, nonce_bytes)
}

/// Opens a record with a key, into a buffer of the secure class.
pub fn pw_dec_with(record: &ReturnBundleData, key: &SecBuf) -> (opened: Result<SecBuf, KeyError>)
    ensures
        data_view(opened) == unsealed_with(record.salt@, record.nonce@, record.cipher@, key@),
        opened matches Ok(data) ==> data.is_secure(),
{
    if record.salt.len() != SALTBYTES || record.nonce.len() != NONCEBYTES || record.cipher.len()
        < ABYTES {
        return Err(KeyError::DecodeFailure);
    }
    if key.len() != SESSIONKEYBYTES {
        return Err(KeyError::PrimitiveFailure);
    }
    let mut data: Vec<u8> = zeroed(record.cipher.len() - ABYTES);
    if aead_decrypt(&mut data, &record.cipher, &record.nonce, key.read_lock()) {
        Ok(SecBuf::from_secret(data))
    } else {
        Err(KeyError::AuthenticationFailure)
    }
}

/// Opens a record under a passphrase: derives the key of the passphrase and
/// the record's salt and opens the record with it as `pw_dec_with` does. A
/// wrong passphrase gives another key, under which the tag does not verify:
/// `AuthenticationFailure`. For a record whose lengths fit,
/// `PrimitiveFailure` may stand in place of the outcome: it says that the
/// password hash failed.
pub fn pw_dec(record: &ReturnBundleData, passphrase: &SecBuf) -> (opened: Result<SecBuf, KeyError>)
    ensures
        data_view(opened) == unsealed_with(
            record.salt@,
            record.nonce@,
            record.cipher@,
            passphrase_key(passphrase@, record.salt@),
        ) || (opened matches Err(KeyError::PrimitiveFailure) && record_lengths_fit(
            record.salt@,
            record.nonce@,
            record.cipher@,
        )),
        opened matches Ok(data) ==> data.is_secure(),
{
    if record.salt.len() != SALTBYTES || record.nonce.len() != NONCEBYTES || record.cipher.len()
        < ABYTES {
        return Err(KeyError::DecodeFailure);
    }
    let key: SecBuf = match pw_hash(passphrase, &record.salt) {
        Some(key) => key,
        None => {
            return Err(KeyError::PrimitiveFailure);
        },
    };
    pw_dec_with(record, &key)
}

impl KeyBundle {
    /// Wraps a sealed record into a bundle with a hint: the data of the
    /// bundle is the base64 text of the text of the record, and `record`
    /// reads the record back from it. It fails, with `PrimitiveFailure`, for
    /// a record whose text is longer than an eighth of the address space,
    /// which is too long to be encoded, and for no other; a text has at most
    /// four bytes for each number of the record and 34 more.
    pub fn wrap(record: &ReturnBundleData, hint: String) -> (wrapped: Result<KeyBundle, KeyError>)
        ensures
            match wrapped {
                Ok(bundle) => {
                    &&& record_text(record.salt@, record.nonce@, record.cipher@).len()
                        <= usize::MAX / 8
                    &&& bundle.bundle_type@ == "hcKeypair"@
                    &&& bundle.hint@ == hint@
                    &&& bundle.data@ == base64_text(
                        record_text(record.salt@, record.nonce@, record.cipher@),
                    )
                    &&& record_of_data(bundle.data@) == Some(
                        (record.salt@, record.nonce@, record.cipher@),
                    )
                },
                Err(e) => {
                    &&& e == KeyError::PrimitiveFailure
                    &&& record_text(record.salt@, record.nonce@, record.cipher@).len()
                        > usize::MAX / 8
                },
            },
            4 * (record.salt@.len() + record.nonce@.len() + record.cipher@.len()) + 34
                <= usize::MAX / 8 ==> wrapped is Ok,
    {
        proof {
            lemma_record_text_len(record.salt@, record.nonce@, record.cipher@);
        }
        let text: Vec<u8> = encode_record(record);
        if text.len() > usize::MAX / 8 {
            return Err(KeyError::PrimitiveFailure);
        }
        let data: String = base64_encode(&text);
        proof {
            is_ascii_chars_encode_utf8(data@);
        }
        Ok(KeyBundle { bundle_type: "hcKeypair".to_owned(), hint, data })
    }

    /// Reads the sealed record that the data of the bundle holds.
    /// `DecodeFailure` says that the data holds none.
    pub fn record(&self) -> (read: Result<ReturnBundleData, KeyError>)
        ensures
            match read {
                Ok(record) => record_of_data(self.data@) == Some(
                    (record.salt@, record.nonce@, record.cipher@),
                ),
                Err(e) => e == KeyError::DecodeFailure && record_of_data(self.data@) is None,
            },
    {
        let data: &str = self.data.as_str();
        if data.as_bytes().len() > usize::MAX / 4 {
            return Err(KeyError::DecodeFailure);
        }
        let text: Vec<u8> = match base64_decode(data) {
            Some(text) => text,
            None => {
                return Err(KeyError::DecodeFailure);
            },
        };
        match decode_record(&text) {
            Some(record) => Ok(record),
            None => Err(KeyError::DecodeFailure),
        }
    }
}

impl Keypair {
    /// Rebuilds a keypair from its key material of 160 bytes: the public
    /// signing key, the public encryption key, the private signing key and
    /// the private encryption key. The identity string is that of the two
    /// public keys; the private keys are of the secure class.
    pub fn from_material(material: &SecBuf) -> (rebuilt: Result<Keypair, KeyError>)
        ensures
            keypair_view(rebuilt) == keypair_of_material(material@),
            rebuilt matches Ok(keypair) ==> keypair.sign_priv.is_secure()
                && keypair.enc_priv.is_secure(),
    {
        if material.len() != KEY_MATERIAL_LEN {
            return Err(KeyError::DecodeFailure);
        }
        let bytes: &Vec<u8> = material.read_lock();
        let sign_pub: SecBuf = SecBuf::from_bytes(copy_range(bytes, 0, 32));
        let enc_pub: SecBuf = SecBuf::from_bytes(copy_range(bytes, 32, 64));
        let sign_priv: SecBuf = SecBuf::from_secret(copy_range(bytes, 64, 128));
        let enc_priv: SecBuf = SecBuf::from_secret(copy_range(bytes, 128, 160));
        let pub_keys: String = match encode_id(&sign_pub, &enc_pub) {
            Ok(id) => id,
            Err(e) => {
                return Err(KeyError::DecodeFailure);
            },
        };
        Ok(Keypair { pub_keys, sign_priv, enc_priv })
    }

    /// The key material of the keypair, in a buffer of the secure class.
    /// `DecodeFailure` says that the identity string is malformed.
    pub fn material(&self) -> (gathered: Result<SecBuf, KeyError>)
        ensures
            match gathered {
                Ok(material) => key_material(self.pub_keys@, self.sign_priv@, self.enc_priv@)
                    == Some(material@) && material.is_secure(),
                Err(e) => e == KeyError::DecodeFailure && identity_keys(self.pub_keys@) is None,
            },
    {
        let (sign_pub, enc_pub) = match decode_id(self.pub_keys.as_str()) {
            Ok(keys) => keys,
            Err(e) => {
                return Err(KeyError::DecodeFailure);
            },
        };
        let mut bytes: Vec<u8> = Vec::with_capacity(KEY_MATERIAL_LEN);
        append_bytes(&mut bytes, sign_pub.read_lock());
        append_bytes(&mut bytes, enc_pub.read_lock());
        append_bytes(&mut bytes, self.sign_priv.read_lock());
        append_bytes(&mut bytes, self.enc_priv.read_lock());
        Ok(SecBuf::from_secret(bytes))
    }

    /// Seals the keypair under a passphrase into a bundle with a hint. Where
    /// the keypair is well formed, `from_bundle` with the same passphrase
    /// restores from the bundle the same identity and the same private keys.
    /// `DecodeFailure` says that the identity string is malformed;
    /// `PrimitiveFailure` says that the random source or the password hash
    /// failed, or that the private keys are too long to be sealed.
    pub fn get_bundle(&self, passphrase: &SecBuf, hint: String) -> (sealed: Result<
        KeyBundle,
        KeyError,
    >)
        ensures
            match sealed {
                Ok(bundle) => {
                    &&& bundle.bundle_type@ == "hcKeypair"@
                    &&& bundle.hint@ == hint@
                    &&& key_material(self.pub_keys@, self.sign_priv@, self.enc_priv@) matches Some(
                        material,
                    )
                    &&& exists|salt: Seq<u8>, nonce: Seq<u8>|
                        salt.len() == SALTBYTES && nonce.len() == NONCEBYTES && bundle.data@
                            == #[trigger] bundle_data(
                            material,
                            passphrase_key(passphrase@, salt),
                            salt,
                            nonce,
                        )
                    &&& self.well_formed() ==> restored(bundle.data@, passphrase@) == Ok::<
                        (Seq<char>, Seq<u8>, Seq<u8>),
                        KeyError,
                    >((self.pub_keys@, self.sign_priv@, self.enc_priv@))
                },
                Err(e) => if identity_keys(self.pub_keys@) is None {
                    e == KeyError::DecodeFailure
                } else {
                    e == KeyError::PrimitiveFailure
                },
            },
    {
        let material: SecBuf = match self.material() {
            Ok(material) => material,
            Err(e) => {
                return Err(KeyError::DecodeFailure);
            },
        };
        let record: ReturnBundleData = match pw_enc(&material, passphrase) {
            Ok(record) => record,
            Err(e) => {
                return Err(KeyError::PrimitiveFailure);
            },
        };
        let bundle: KeyBundle = match KeyBundle::wrap(&record, hint) {
            Ok(bundle) => bundle,
            Err(e) => {
                return Err(KeyError::PrimitiveFailure);
            },
        };
        proof {
            let key = passphrase_key(passphrase@, record.salt@);
            assert(bundle.data@ == bundle_data(material@, key, record.salt@, record.nonce@));
            if self.well_formed() {
                let keys = identity_keys(self.pub_keys@).unwrap();
                assert(material@.subrange(0, 32) =~= keys.0);
                assert(material@.subrange(32, 64) =~= keys.1);
                assert(material@.subrange(64, 128) =~= self.sign_priv@);
                assert(material@.subrange(128, 160) =~= self.enc_priv@);
            }
        }
        Ok(bundle)
    }

    /// Restores a keypair from a bundle under a passphrase: reads the sealed
    /// record from the data of the bundle, opens it with the key of the
    /// passphrase, and rebuilds the keypair from the key material. Nothing of
    /// a keypair is given out unless all of this succeeds. For data that
    /// holds a record whose lengths fit, `PrimitiveFailure` may stand in
    /// place of the outcome: it says that the password hash failed.
    pub fn from_bundle(bundle: &KeyBundle, passphrase: &SecBuf) -> (restored_keys: Result<
        Keypair,
        KeyError,
    >)
        ensures
            keypair_view(restored_keys) == restored(bundle.data@, passphrase@) || (
            restored_keys matches Err(KeyError::PrimitiveFailure) && match record_of_data(
                bundle.data@,
            ) {
                Some((salt, nonce, cipher)) => record_lengths_fit(salt, nonce, cipher),
                None => false,
            }),
            restored_keys matches Ok(keypair) ==> keypair.sign_priv.is_secure()
                && keypair.enc_priv.is_secure(),
    {
        let record: ReturnBundleData = match bundle.record() {
            Ok(record) => record,
            Err(e) => {
                return Err(KeyError::DecodeFailure);
            },
        };
        let material: SecBuf = match pw_dec(&record, passphrase) {
            Ok(material) => material,
            Err(e) => {
                return Err(e);
            },
        };
        Keypair::from_material(&material)
    }
}

} // verus!
