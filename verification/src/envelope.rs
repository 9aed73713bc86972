//! Envelopes: a payload encrypted once under a fresh secret, and that secret
//! wrapped once for each recipient.

use crate::error::KeyError;
use crate::bytes::{copy_range, zeroed};
use crate::identity::{decode_id, identity_keys};
use crate::keypair::Keypair;
use crate::provider::{
    aead_decrypt, aead_encrypt, aead_opened, aead_sealed, is_kx_keypair, kx_client_keys,
    kx_client_session, kx_server_keys, kx_server_session, ABYTES, KX_SECRETKEYBYTES, NONCEBYTES,
    SESSIONKEYBYTES,
};
use crate::secbuf::SecBuf;
use vstd::prelude::*;

verus! {

/// A nonce and what was encrypted under it.
pub struct CipherPair {
    /// The nonce, 24 bytes.
    pub nonce: SecBuf,
    /// The ciphertext with its tag.
    pub cipher: SecBuf,
}

impl View for CipherPair {
    type V = (Seq<u8>, Seq<u8>);

    open spec fn view(&self) -> (Seq<u8>, Seq<u8>) {
        (self.nonce@, self.cipher@)
    }
}

/// What one encryption produces: for each recipient, in the order in which
/// they were named, the wrapped secret; then the payload. Nothing in it says
/// whose a wrapped secret is.
pub struct CipherEnvelope {
    /// The pairs of the envelope, the payload last.
    pub pairs: Vec<CipherPair>,
}

impl View for CipherEnvelope {
    type V = Seq<(Seq<u8>, Seq<u8>)>;

    open spec fn view(&self) -> Seq<(Seq<u8>, Seq<u8>)> {
        Seq::new(self.pairs@.len(), |i: int| self.pairs@[i]@)
    }
}

/// The identity strings of a list of recipients.
pub open spec fn ids_view(recipients: Seq<&String>) -> Seq<Seq<char>> {
    Seq::new(recipients.len(), |i: int| recipients[i]@)
}

/// The contents of a list of buffers.
pub open spec fn bufs_view(bufs: Seq<SecBuf>) -> Seq<Seq<u8>> {
    Seq::new(bufs.len(), |i: int| bufs[i]@)
}

/// An envelope, or the error in its place, over byte sequences.
pub open spec fn envelope_view(sealed: Result<CipherEnvelope, KeyError>) -> Result<
    Seq<(Seq<u8>, Seq<u8>)>,
    KeyError,
> {
    match sealed {
        Ok(envelope) => Ok(envelope@),
        Err(e) => Err(e),
    }
}

/// A payload, or the error in its place, as a byte sequence.
pub open spec fn payload_view(opened: Result<SecBuf, KeyError>) -> Result<Seq<u8>, KeyError> {
    match opened {
        Ok(payload) => Ok(payload@),
        Err(e) => Err(e),
    }
}

/// The session key under which a sender wraps the secret for one recipient:
/// the sending key of the sender's side of the key exchange with the
/// recipient's public encryption key. `DecodeFailure` where the recipient's
/// identity string is malformed, `PrimitiveFailure` where the key exchange
/// refuses the recipient's key.
pub open spec fn wrapping_key(
    sender_pk: Seq<u8>,
    sender_sk: Seq<u8>,
    recipient: Seq<char>,
) -> Result<Seq<u8>, KeyError> {
    match identity_keys(recipient) {
        None => Err(KeyError::DecodeFailure),
        Some((sign_pub, enc_pub)) => match kx_server_keys(sender_pk, sender_sk, enc_pub) {
            None => Err(KeyError::PrimitiveFailure),
            Some((rx, tx)) => Ok(tx),
        },
    }
}

/// The wrapped secrets for the first `count` recipients, each under its own
/// nonce, or the error of the first recipient for whom there is none.
pub open spec fn wrapped_secrets(
    sender_pk: Seq<u8>,
    sender_sk: Seq<u8>,
    recipients: Seq<Seq<char>>,
    secret: Seq<u8>,
    nonces: Seq<Seq<u8>>,
    count: nat,
) -> Result<Seq<(Seq<u8>, Seq<u8>)>, KeyError>
    decreases count,
{
    if count == 0 {
        Ok(Seq::empty())
    } else {
        match wrapped_secrets(
            sender_pk,
            sender_sk,
            recipients,
            secret,
            nonces,
            (count - 1) as nat,
        ) {
            Err(e) => Err(e),
            Ok(pairs) => match wrapping_key(sender_pk, sender_sk, recipients[count - 1]) {
                Err(e) => Err(e),
                Ok(key) => Ok(
                    pairs.push((nonces[count - 1], aead_sealed(secret, key, nonces[count - 1]))),
                ),
            },
        }
    }
}

/// Whether a secret and nonces are what sealing an envelope for `count`
/// recipients takes: a secret of 32 bytes, one nonce of 24 bytes for each
/// recipient and one for the payload, and a payload to which a tag can be
/// appended.
pub open spec fn sealing_inputs_fit(
    count: nat,
    data: Seq<u8>,
    secret: Seq<u8>,
    nonces: Seq<Seq<u8>>,
) -> bool {
    &&& secret.len() == SESSIONKEYBYTES
    &&& nonces.len() == count + 1
    &&& forall|i: int| 0 <= i < nonces.len() ==> (#[trigger] nonces[i]).len() == NONCEBYTES
    &&& data.len() + ABYTES <= usize::MAX
}

/// The envelope that a sender seals for the recipients with a given secret
/// and given nonces: the secret wrapped for each recipient, in their order,
/// and last the payload encrypted under the secret. In its place stands
/// `PrimitiveFailure` where secret and nonces do not fit or the sender's
/// private key has not its length, `DecodeFailure` where the sender's
/// identity string is malformed, and else the error of the first recipient
/// for whom the secret cannot be wrapped.
pub open spec fn sealed_envelope(
    sender_id: Seq<char>,
    sender_sk: Seq<u8>,
    recipients: Seq<Seq<char>>,
    data: Seq<u8>,
    secret: Seq<u8>,
    nonces: Seq<Seq<u8>>,
) -> Result<Seq<(Seq<u8>, Seq<u8>)>, KeyError> {
    if !sealing_inputs_fit(recipients.len(), data, secret, nonces) {
        Err(KeyError::PrimitiveFailure)
    } else {
        match identity_keys(sender_id) {
            None => Err(KeyError::DecodeFailure),
            Some((sign_pub, enc_pub)) => if sender_sk.len() != KX_SECRETKEYBYTES {
                Err(KeyError::PrimitiveFailure)
            } else {
                match wrapped_secrets(
                    enc_pub,
                    sender_sk,
                    recipients,
                    secret,
                    nonces,
                    recipients.len(),
                ) {
                    Err(e) => Err(e),
                    Ok(pairs) => Ok(
                        pairs.push((nonces.last(), aead_sealed(data, secret, nonces.last()))),
                    ),
                }
            },
        }
    }
}

/// What a pair gives when it is opened under a key: the plaintext, or `None`
/// where the nonce or the key has not its length, the ciphertext is shorter
/// than a tag, or the tag does not verify.
pub open spec fn opened_pair(pair: (Seq<u8>, Seq<u8>), key: Seq<u8>) -> Option<Seq<u8>> {
    if pair.0.len() == NONCEBYTES && pair.1.len() >= ABYTES && key.len() == SESSIONKEYBYTES {
        aead_opened(pair.1, key, pair.0)
    } else {
        None
    }
}

/// The secret that a pair holds for the owner of a session key: the
/// plaintext of a pair that opens under the key and has the length of a
/// wrapped secret.
pub open spec fn secret_in(pair: (Seq<u8>, Seq<u8>), key: Seq<u8>) -> Option<Seq<u8>> {
    if pair.1.len() == SESSIONKEYBYTES + ABYTES {
        opened_pair(pair, key)
    } else {
        None
    }
}

/// The secret of the first pair from `from` on, the last pair left out, that
/// holds one for the owner of the session key.
pub open spec fn first_secret(pairs: Seq<(Seq<u8>, Seq<u8>)>, key: Seq<u8>, from: int) -> Option<
    Seq<u8>,
>
    decreases pairs.len() - from,
{
    if from < 0 || from >= pairs.len() - 1 {
        None
    } else if secret_in(pairs[from], key) is Some {
        secret_in(pairs[from], key)
    } else {
        first_secret(pairs, key, from + 1)
    }
}

/// The payload that the owner of a session key reads from an envelope:
/// `DecodeFailure` for an envelope without pairs, `NotARecipient` where no
/// pair before the last holds a secret for the key, and
/// `AuthenticationFailure` where the last pair does not open under the
/// first secret found.
pub open spec fn opened_payload(pairs: Seq<(Seq<u8>, Seq<u8>)>, key: Seq<u8>) -> Result<
    Seq<u8>,
    KeyError,
> {
    if pairs.len() == 0 {
        Err(KeyError::DecodeFailure)
    } else {
        match first_secret(pairs, key, 0) {
            None => Err(KeyError::NotARecipient),
            Some(secret) => match opened_pair(pairs.last(), secret) {
                Some(payload) => Ok(payload),
                None => Err(KeyError::AuthenticationFailure),
            },
        }
    }
}

/// What a keypair reads from an envelope that a sender is said to have
/// sealed: `DecodeFailure` for an envelope without pairs, whoever reads it,
/// and where the sender's or the reader's identity string is malformed,
/// `PrimitiveFailure` where the reader's private key has not its length or
/// the key exchange refuses the sender's key, and else what the reader's
/// receiving key opens.
pub open spec fn decrypted(
    reader_id: Seq<char>,
    reader_sk: Seq<u8>,
    sender_id: Seq<char>,
    pairs: Seq<(Seq<u8>, Seq<u8>)>,
) -> Result<Seq<u8>, KeyError> {
    if pairs.len() == 0 {
        Err(KeyError::DecodeFailure)
    } else {
        match identity_keys(sender_id) {
            None => Err(KeyError::DecodeFailure),
            Some((sender_sign_pub, sender_enc_pub)) => match identity_keys(reader_id) {
                None => Err(KeyError::DecodeFailure),
                Some((sign_pub, enc_pub)) => if reader_sk.len() != KX_SECRETKEYBYTES {
                    Err(KeyError::PrimitiveFailure)
                } else {
                    match kx_client_keys(enc_pub, reader_sk, sender_enc_pub) {
                        None => Err(KeyError::PrimitiveFailure),
                        Some((rx, tx)) => opened_payload(pairs, rx),
                    }
                },
            },
        }
    }
}

/// Whether pairs have the shape of an envelope for `count` recipients and a
/// payload of `data_len` bytes: one pair for each recipient, with a nonce
/// of 24 bytes and a wrapped secret of 48, and last the pair of the payload,
/// with a nonce of 24 bytes and a ciphertext one tag longer than the
/// payload.
pub open spec fn envelope_shape(pairs: Seq<(Seq<u8>, Seq<u8>)>, count: nat, data_len: nat) -> bool {
    &&& pairs.len() == count + 1
    &&& forall|i: int|
        0 <= i < count ==> (#[trigger] pairs[i]).0.len() == NONCEBYTES && pairs[i].1.len()
            == SESSIONKEYBYTES + ABYTES
    &&& pairs.last().0.len() == NONCEBYTES
    &&& pairs.last().1.len() == data_len + ABYTES
}

/// The public encryption key that an identity string holds.
pub open spec fn enc_key_of(id: Seq<char>) -> Seq<u8> {
    match identity_keys(id) {
        Some((sign_pub, enc_pub)) => enc_pub,
        None => Seq::empty(),
    }
}

/// The key with which a reader receives from a sender: the receiving key of
/// the reader's side of the key exchange with the sender's public key.
pub open spec fn receiving_key(
    reader_pk: Seq<u8>,
    reader_sk: Seq<u8>,
    sender_pk: Seq<u8>,
) -> Option<Seq<u8>> {
    match kx_client_keys(reader_pk, reader_sk, sender_pk) {
        Some((rx, tx)) => Some(rx),
        None => None,
    }
}

/// Whether an envelope is addressed to the recipients: it has one pair for
/// each of them and one more, the last pair opens under the secret to the
/// payload, and whoever holds the private key that belongs to the public
/// encryption key of the recipient at a position finds the secret in the
/// pair at that position, under the key with which they receive from the
/// sender.
pub open spec fn addressed(
    pairs: Seq<(Seq<u8>, Seq<u8>)>,
    sender_pk: Seq<u8>,
    recipients: Seq<Seq<char>>,
    secret: Seq<u8>,
    data: Seq<u8>,
) -> bool {
    &&& pairs.len() == recipients.len() + 1
    &&& opened_pair(pairs.last(), secret) == Some(data)
    &&& forall|i: int, reader_sk: Seq<u8>|
        0 <= i < recipients.len() && #[trigger] is_kx_keypair(
            enc_key_of(recipients[i]),
            reader_sk,
        ) ==> match receiving_key(enc_key_of(recipients[i]), reader_sk, sender_pk) {
            Some(rx) => secret_in(pairs[i], rx) == Some(secret),
            None => false,
        }
}

/// A buffer of the insecure class with the bytes of `buf`.
fn duplicate(buf: &SecBuf) -> (copy: SecBuf)
    ensures
        copy@ == buf@,
        !copy.is_secure(),
{
    let bytes: Vec<u8> = copy_range(buf.read_lock(), 0, buf.len());
    SecBuf::from_bytes(bytes)
}

/// The contents of a list of pairs.
pub open spec fn pairs_view(pairs: Seq<CipherPair>) -> Seq<(Seq<u8>, Seq<u8>)> {
    Seq::new(pairs.len(), |i: int| pairs[i]@)
}

/// Encrypts `message` under a key and a nonce into a pair with a copy of
/// the nonce.
fn seal_pair(message: &SecBuf, key: &Vec<u8>, nonce: &SecBuf) -> (pair: CipherPair)
    requires
        message@.len() + ABYTES <= usize::MAX,
        key@.len() == SESSIONKEYBYTES,
        nonce@.len() == NONCEBYTES,
    ensures
        pair@ == (nonce@, aead_sealed(message@, key@, nonce@)),
        opened_pair(pair@, key@) == Some(message@),
        pair.cipher@.len() == message@.len() + ABYTES,
{
    let mut cipher: Vec<u8> = zeroed(message.len() + ABYTES);
    aead_encrypt(&mut cipher, message.read_lock(), nonce.read_lock(), key);
    CipherPair { nonce: duplicate(nonce), cipher: SecBuf::from_bytes(cipher) }
}

/// Opens a pair under a key, or gives `None` where it does not open.
fn open_pair(pair: &CipherPair, key: &Vec<u8>) -> (plain: Option<Vec<u8>>)
    ensures
        match plain {
            Some(message) => opened_pair(pair@, key@) == Some(message@) && message@.len()
                == pair.cipher@.len() - ABYTES,
            None => opened_pair(pair@, key@) is None,
        },
{
    if pair.nonce.len() != NONCEBYTES || pair.cipher.len() < ABYTES || key.len()
        != SESSIONKEYBYTES {
        return None;
    }
    let mut message: Vec<u8> = zeroed(pair.cipher.len() - ABYTES);
    if aead_decrypt(&mut message, pair.cipher.read_lock(), pair.nonce.read_lock(), key) {
        Some(message)
    } else {
        None
    }
}

/// Once no secret can be wrapped for one recipient, none can be for a longer
/// list: the error of the first such recipient stays.
proof fn lemma_wrapping_error_stays(
    sender_pk: Seq<u8>,
    sender_sk: Seq<u8>,
    recipients: Seq<Seq<char>>,
    secret: Seq<u8>,
    nonces: Seq<Seq<u8>>,
    failed: nat,
    count: nat,
)
    requires
        failed <= count,
        wrapped_secrets(sender_pk, sender_sk, recipients, secret, nonces, failed) is Err,
    ensures
        wrapped_secrets(sender_pk, sender_sk, recipients, secret, nonces, count)
            == wrapped_secrets(sender_pk, sender_sk, recipients, secret, nonces, failed),
    decreases count,
{
    if count > failed {
        lemma_wrapping_error_stays(
            sender_pk,
            sender_sk,
            recipients,
            secret,
            nonces,
            failed,
            (count - 1) as nat,
        );
    }
}

/// Where no pair before a position holds a secret for a key and the pair at
/// the position does, that secret is the first one found.
proof fn lemma_first_secret_at(
    pairs: Seq<(Seq<u8>, Seq<u8>)>,
    key: Seq<u8>,
    from: int,
    at: int,
)
    requires
        0 <= from <= at < pairs.len() - 1,
        forall|j: int| from <= j < at ==> secret_in(#[trigger] pairs[j], key) is None,
        secret_in(pairs[at], key) is Some,
    ensures
        first_secret(pairs, key, from) == secret_in(pairs[at], key),
    decreases at - from,
{
    if from < at {
        lemma_first_secret_at(pairs, key, from + 1, at);
    }
}

/// A recipient reads the payload. Let an envelope be addressed to a list of
/// recipients by a sender, and let a reader hold the identity at one
/// position of the list and the private key that belongs to its public
/// encryption key. If no pair before that position holds a secret for the
/// reader's receiving key, then what the reader decrypts is the payload.
pub proof fn lemma_recipient_reads_payload(
    pairs: Seq<(Seq<u8>, Seq<u8>)>,
    sender_id: Seq<char>,
    recipients: Seq<Seq<char>>,
    secret: Seq<u8>,
    data: Seq<u8>,
    position: int,
    reader_sk: Seq<u8>,
)
    requires
        identity_keys(sender_id) is Some,
        addressed(pairs, enc_key_of(sender_id), recipients, secret, data),
        0 <= position < recipients.len(),
        identity_keys(recipients[position]) is Some,
        reader_sk.len() == KX_SECRETKEYBYTES,
        is_kx_keypair(enc_key_of(recipients[position]), reader_sk),
        match receiving_key(
            enc_key_of(recipients[position]),
            reader_sk,
            enc_key_of(sender_id),
        ) {
            Some(rx) => forall|j: int|
                0 <= j < position ==> secret_in(#[trigger] pairs[j], rx) is None,
            None => true,
        },
    ensures
        decrypted(recipients[position], reader_sk, sender_id, pairs) == Ok::<Seq<u8>, KeyError>(
            data,
        ),
{
    let reader_pk = enc_key_of(recipients[position]);
    let sender_pk = enc_key_of(sender_id);
    let rx = receiving_key(reader_pk, reader_sk, sender_pk)->0;
    lemma_first_secret_at(pairs, rx, 0, position);
}

/// Opens an envelope with the receiving key of a session: the first pair
/// before the last that opens under the key to a secret of 32 bytes gives
/// the secret, and the last pair opens under that secret to the payload.
/// Every pair before the last is tried at most once, in order; one that does
/// not open is passed over. The envelope is read, not changed. The payload
/// comes in a buffer of the insecure class.
pub fn open_envelope(envelope: &CipherEnvelope, session_key: &SecBuf) -> (opened: Result<
    SecBuf,
    KeyError,
>)
    ensures
        payload_view(opened) == opened_payload(envelope@, session_key@),
{
    let total: usize = envelope.pairs.len();
    if total == 0 {
        return Err(KeyError::DecodeFailure);
    }
    let candidates: usize = total - 1;
    let mut i: usize = 0;
    while i < candidates
        invariant
            i <= candidates,
            candidates == envelope.pairs@.len() - 1,
            first_secret(envelope@, session_key@, 0) == first_secret(
                envelope@,
                session_key@,
                i as int,
            ),
        decreases candidates - i,
    {
        let candidate: &CipherPair = &envelope.pairs[i];
        if candidate.cipher.len() == SESSIONKEYBYTES + ABYTES {
            match open_pair(candidate, session_key.read_lock()) {
                Some(bytes) => {
                    let secret: SecBuf = SecBuf::from_secret(bytes);
                    return match open_pair(&envelope.pairs[candidates], secret.read_lock()) {
                        Some(payload) => Ok(SecBuf::from_bytes(payload)),
                        None => Err(KeyError::AuthenticationFailure),
                    };
                },
                None => {},
            }
        }
        i = i + 1;
    }
    Err(KeyError::NotARecipient)
}

impl Keypair {
    /// Seals an envelope for the recipients with a given secret and given
    /// nonces, one nonce for each recipient and one more for the payload:
    /// the secret is wrapped for each recipient, in their order, under the
    /// sending key of the session with that recipient, and the payload is
    /// encrypted under the secret itself. The same arguments give the same
    /// envelope. An envelope of a sender whose private encryption key belongs
    /// to the public one of its identity is addressed to the recipients. The
    /// errors are those of `sealed_envelope`.
    pub fn seal_envelope(
        &self,
        recipient_id: &Vec<&String>,
        data: &SecBuf,
        secret: &SecBuf,
        nonces: &Vec<SecBuf>,
    ) -> (sealed: Result<CipherEnvelope, KeyError>)
        ensures
            envelope_view(sealed) == sealed_envelope(
                self.pub_keys@,
                self.enc_priv@,
                ids_view(recipient_id@),
                data@,
                secret@,
                bufs_view(nonces@),
            ),
            sealed matches Ok(envelope) ==> {
                &&& envelope.pairs@.len() == recipient_id@.len() + 1
                &&& envelope_shape(envelope@, recipient_id@.len(), data@.len())
                &&& is_kx_keypair(enc_key_of(self.pub_keys@), self.enc_priv@) ==> addressed(
                    envelope@,
                    enc_key_of(self.pub_keys@),
                    ids_view(recipient_id@),
                    secret@,
                    data@,
                )
            },
    {
        let count: usize = recipient_id.len();
        let supplied: usize = nonces.len();
        if secret.len() != SESSIONKEYBYTES || count == usize::MAX || data.len() > usize::MAX
            - ABYTES {
            return Err(KeyError::PrimitiveFailure);
        }
        if supplied != count + 1 {
            return Err(KeyError::PrimitiveFailure);
        }
        let mut k: usize = 0;
        while k < nonces.len()
            invariant
                k <= nonces@.len(),
                forall|j: int|
                    0 <= j < k ==> (#[trigger] bufs_view(nonces@)[j]).len() == NONCEBYTES,
            decreases nonces@.len() - k,
        {
            if nonces[k].len() != NONCEBYTES {
                assert(bufs_view(nonces@)[k as int].len() != NONCEBYTES);
                return Err(KeyError::PrimitiveFailure);
            }
            k = k + 1;
        }
        let (sign_pub, enc_pub) = match decode_id(self.pub_keys.as_str()) {
            Ok(keys) => keys,
            Err(e) => {
                return Err(KeyError::DecodeFailure);
            },
        };
        if self.enc_priv.len() != KX_SECRETKEYBYTES {
            return Err(KeyError::PrimitiveFailure);
        }
        let ghost ids = ids_view(recipient_id@);
        let ghost marks = bufs_view(nonces@);
        let mut pairs: Vec<CipherPair> = Vec::new();
        let mut i: usize = 0;
        assert(pairs_view(pairs@) =~= Seq::empty());
        while i < count
            invariant
                i <= count,
                count == recipient_id@.len(),
                nonces@.len() == count + 1,
                ids == ids_view(recipient_id@),
                marks == bufs_view(nonces@),
                sealing_inputs_fit(count as nat, data@, secret@, marks),
                identity_keys(self.pub_keys@) == Some((sign_pub@, enc_pub@)),
                enc_pub@.len() == SESSIONKEYBYTES,
                self.enc_priv@.len() == KX_SECRETKEYBYTES,
                wrapped_secrets(enc_pub@, self.enc_priv@, ids, secret@, marks, i as nat) == Ok::<
                    Seq<(Seq<u8>, Seq<u8>)>,
                    KeyError,
                >(pairs_view(pairs@)),
                pairs@.len() == i,
                forall|j: int|
                    0 <= j < i ==> (#[trigger] pairs_view(pairs@)[j]).0.len() == NONCEBYTES
                        && pairs_view(pairs@)[j].1.len() == SESSIONKEYBYTES + ABYTES,
                is_kx_keypair(enc_pub@, self.enc_priv@) ==> forall|j: int, reader_sk: Seq<u8>|
                    0 <= j < i && #[trigger] is_kx_keypair(enc_key_of(ids[j]), reader_sk)
                        ==> match receiving_key(enc_key_of(ids[j]), reader_sk, enc_pub@) {
                        Some(rx) => secret_in(pairs_view(pairs@)[j], rx) == Some(secret@),
                        None => false,
                    },
            decreases count - i,
        {
            let ghost before = pairs_view(pairs@);
            let recipient_enc_pub: SecBuf = match decode_id(recipient_id[i].as_str()) {
                Ok((recipient_sign_pub, recipient_enc_pub)) => recipient_enc_pub,
                Err(e) => {
                    proof {
                        lemma_wrapping_error_stays(
                            enc_pub@,
                            self.enc_priv@,
                            ids,
                            secret@,
                            marks,
                            (i + 1) as nat,
                            count as nat,
                        );
                    }
                    return Err(KeyError::DecodeFailure);
                },
            };
            let key: SecBuf = match kx_server_session(
                enc_pub.read_lock(),
                self.enc_priv.read_lock(),
                recipient_enc_pub.read_lock(),
            ) {
                Some((rx, tx)) => {
                    let receiving: SecBuf = SecBuf::from_secret(rx);
                    SecBuf::from_secret(tx)
                },
                None => {
                    proof {
                        lemma_wrapping_error_stays(
                            enc_pub@,
                            self.enc_priv@,
                            ids,
                            secret@,
                            marks,
                            (i + 1) as nat,
                            count as nat,
                        );
                    }
                    return Err(KeyError::PrimitiveFailure);
                },
            };
            let pair: CipherPair = seal_pair(secret, key.read_lock(), &nonces[i]);
            pairs.push(pair);
            assert(pairs_view(pairs@) =~= before.push(pair@));
            i = i + 1;
        }
        let ghost wrapped = pairs_view(pairs@);
        let payload: CipherPair = seal_pair(data, secret.read_lock(), &nonces[count]);
        pairs.push(payload);
        assert(pairs_view(pairs@) =~= wrapped.push(payload@));
        let envelope: CipherEnvelope = CipherEnvelope { pairs };
        Ok(envelope)
    }

    /// Encrypts `data` for the recipients, in their order: draws a fresh
    /// secret and a fresh nonce for each recipient and for the payload, and
    /// seals the envelope with them as `seal_envelope` does. The envelope has
    /// one pair for each recipient and one more. The secret does not outlive
    /// the call: it is wiped when the call ends. `PrimitiveFailure` may also
    /// say that the random source did not deliver.
    pub fn encrypt(&self, recipient_id: Vec<&String>, data: &SecBuf) -> (sealed: Result<
        CipherEnvelope,
        KeyError,
    >)
        ensures
            match sealed {
                Ok(envelope) => {
                    &&& envelope.pairs@.len() == recipient_id@.len() + 1
                    &&& envelope_shape(envelope@, recipient_id@.len(), data@.len())
                    &&& exists|secret: Seq<u8>, nonces: Seq<Seq<u8>>|
                        {
                            &&& #[trigger] sealed_envelope(
                                self.pub_keys@,
                                self.enc_priv@,
                                ids_view(recipient_id@),
                                data@,
                                secret,
                                nonces,
                            ) == Ok::<Seq<(Seq<u8>, Seq<u8>)>, KeyError>(envelope@)
                            &&& is_kx_keypair(enc_key_of(self.pub_keys@), self.enc_priv@)
                                ==> addressed(
                                envelope@,
                                enc_key_of(self.pub_keys@),
                                ids_view(recipient_id@),
                                secret,
                                data@,
                            )
                        }
                },
                Err(e) => {
                    ||| e == KeyError::PrimitiveFailure
                    ||| exists|secret: Seq<u8>, nonces: Seq<Seq<u8>>| #[trigger]
                        sealed_envelope(
                            self.pub_keys@,
                            self.enc_priv@,
                            ids_view(recipient_id@),
                            data@,
                            secret,
                            nonces,
                        ) == Err::<Seq<(Seq<u8>, Seq<u8>)>, KeyError>(e)
                },
            },
    {
        let count: usize = recipient_id.len();
        if count == usize::MAX {
            return Err(KeyError::PrimitiveFailure);
        }
        let mut secret: SecBuf = SecBuf::with_secure(SESSIONKEYBYTES);
        match secret.randomize() {
            Ok(()) => {},
            Err(e) => {
                return Err(KeyError::PrimitiveFailure);
            },
        }
        let mut nonces: Vec<SecBuf> = Vec::new();
        let mut k: usize = 0;
        while k < count + 1
            invariant
                k <= count + 1,
                count < usize::MAX,
                nonces@.len() == k,
            decreases count + 1 - k,
        {
            let mut nonce: SecBuf = SecBuf::with_insecure(NONCEBYTES);
            match nonce.randomize() {
                Ok(()) => {},
                Err(e) => {
                    return Err(KeyError::PrimitiveFailure);
                },
            }
            nonces.push(nonce);
            k = k + 1;
        }
        self.seal_envelope(&recipient_id, data, &secret, &nonces)
    }

    /// Reads the payload of an envelope that the peer with the identity
    /// `source_id` sealed: derives the receiving key of the session with the
    /// sender and opens the envelope with it, as `open_envelope` does. An
    /// envelope without pairs is refused with `DecodeFailure` before
    /// anything else is looked at.
    pub fn decrypt(&self, source_id: String, cipher_bundle: &CipherEnvelope) -> (opened: Result<
        SecBuf,
        KeyError,
    >)
        ensures
            payload_view(opened) == decrypted(
                self.pub_keys@,
                self.enc_priv@,
                source_id@,
                cipher_bundle@,
            ),
    {
        if cipher_bundle.pairs.len() == 0 {
            return Err(KeyError::DecodeFailure);
        }
        let (source_sign_pub, source_enc_pub) = match decode_id(source_id.as_str()) {
            Ok(keys) => keys,
            Err(e) => {
                return Err(KeyError::DecodeFailure);
            },
        };
        let (sign_pub, enc_pub) = match decode_id(self.pub_keys.as_str()) {
            Ok(keys) => keys,
            Err(e) => {
                return Err(KeyError::DecodeFailure);
            },
        };
        if self.enc_priv.len() != KX_SECRETKEYBYTES {
            return Err(KeyError::PrimitiveFailure);
        }
        let session_key: SecBuf = match kx_client_session(
            enc_pub.read_lock(),
            self.enc_priv.read_lock(),
            source_enc_pub.read_lock(),
        ) {
            Some((rx, tx)) => {
                let sending: SecBuf = SecBuf::from_secret(tx);
                SecBuf::from_secret(rx)
            },
            None => {
                return Err(KeyError::PrimitiveFailure);
            },
        };
        open_envelope(cipher_bundle, &session_key)
    }
}

} // verus!
