use hc_dpki::envelope::{open_envelope, CipherEnvelope, CipherPair};
use hc_dpki::error::KeyError;
use hc_dpki::keypair::{Keypair, SEEDSIZE};
use hc_dpki::secbuf::{random_secbuf, SecBuf};

fn keypair_of(byte: u8) -> Keypair {
    Keypair::new_from_seed(&SecBuf::from_bytes(vec![byte; SEEDSIZE])).unwrap()
}

fn hex(text: &str) -> Vec<u8> {
    (0..text.len() / 2)
        .map(|i| u8::from_str_radix(&text[2 * i..2 * i + 2], 16).unwrap())
        .collect()
}

fn nonces(count: usize) -> Vec<SecBuf> {
    (0..count)
        .map(|i| SecBuf::from_bytes(vec![i as u8 + 1; 24]))
        .collect()
}

#[test]
fn it_should_encode_n_decode_data() {
    let mut seed = SecBuf::with_insecure(SEEDSIZE);
    random_secbuf(&mut seed).unwrap();
    let mut keypair_main = Keypair::new_from_seed(&mut seed).unwrap();

    let mut seed_1 = SecBuf::with_insecure(SEEDSIZE);
    random_secbuf(&mut seed_1).unwrap();
    let mut keypair_1 = Keypair::new_from_seed(&mut seed_1).unwrap();

    let mut message = SecBuf::with_insecure(16);
    random_secbuf(&mut message).unwrap();

    let recipient_id = vec![&keypair_1.pub_keys];

    let mut out = keypair_main.encrypt(recipient_id, &mut message).unwrap();

    match keypair_1.decrypt(keypair_main.pub_keys, &mut out) {
        Ok(mut dm) => {
            let message = message.read_lock();
            let dm = dm.read_lock();
            assert_eq!(format!("{:?}", *message), format!("{:?}", *dm));
        }
        Err(_) => {
            assert!(false);
        }
    };
}

#[test]
fn it_should_encode_n_decode_data_for_multiple_users2() {
    let mut seed = SecBuf::with_insecure(SEEDSIZE);
    random_secbuf(&mut seed).unwrap();
    let mut keypair_main = Keypair::new_from_seed(&mut seed).unwrap();

    let mut seed_1 = SecBuf::with_insecure(SEEDSIZE);
    random_secbuf(&mut seed_1).unwrap();
    let keypair_1 = Keypair::new_from_seed(&mut seed_1).unwrap();

    let mut seed_2 = SecBuf::with_insecure(SEEDSIZE);
    random_secbuf(&mut seed_2).unwrap();
    let mut keypair_2 = Keypair::new_from_seed(&mut seed_2).unwrap();

    let mut message = SecBuf::with_insecure(16);
    random_secbuf(&mut message).unwrap();

    let recipient_id = vec![&keypair_1.pub_keys, &keypair_2.pub_keys];

    let mut out = keypair_main.encrypt(recipient_id, &mut message).unwrap();

    match keypair_2.decrypt(keypair_main.pub_keys, &mut out) {
        Ok(mut dm) => {
            let message = message.read_lock();
            let dm = dm.read_lock();
            assert_eq!(format!("{:?}", *message), format!("{:?}", *dm));
        }
        Err(_) => {
            assert!(false);
        }
    };
}

#[test]
fn it_should_encode_n_decode_data_for_multiple_users1() {
    let mut seed = SecBuf::with_insecure(SEEDSIZE);
    random_secbuf(&mut seed).unwrap();
    let mut keypair_main = Keypair::new_from_seed(&mut seed).unwrap();

    let mut seed_1 = SecBuf::with_insecure(SEEDSIZE);
    random_secbuf(&mut seed_1).unwrap();
    let mut keypair_1 = Keypair::new_from_seed(&mut seed_1).unwrap();

    let mut seed_2 = SecBuf::with_insecure(SEEDSIZE);
    random_secbuf(&mut seed_2).unwrap();
    let keypair_2 = Keypair::new_from_seed(&mut seed_2).unwrap();

    let mut message = SecBuf::with_insecure(16);
    random_secbuf(&mut message).unwrap();

    let recipient_id = vec![&keypair_1.pub_keys, &keypair_2.pub_keys];

    let mut out = keypair_main.encrypt(recipient_id, &mut message).unwrap();

    match keypair_1.decrypt(keypair_main.pub_keys, &mut out) {
        Ok(mut dm) => {
            println!("Decrypted Message: {:?}", dm);
            let message = message.read_lock();
            let dm = dm.read_lock();
            assert_eq!(format!("{:?}", *message), format!("{:?}", *dm));
        }
        Err(_) => {
            println!("Error");
            assert!(false);
        }
    };
}

#[test]
fn it_should_with_fail_when_wrong_key_used_to_decrypt() {
    let mut seed = SecBuf::with_insecure(SEEDSIZE);
    random_secbuf(&mut seed).unwrap();
    let mut keypair_main = Keypair::new_from_seed(&mut seed).unwrap();

    let mut seed_1 = SecBuf::with_insecure(SEEDSIZE);
    random_secbuf(&mut seed_1).unwrap();
    let keypair_1 = Keypair::new_from_seed(&mut seed_1).unwrap();

    let mut seed_2 = SecBuf::with_insecure(SEEDSIZE);
    random_secbuf(&mut seed_2).unwrap();
    let mut keypair_2 = Keypair::new_from_seed(&mut seed_2).unwrap();

    let mut message = SecBuf::with_insecure(16);
    random_secbuf(&mut message).unwrap();

    let recipient_id = vec![&keypair_1.pub_keys];

    let mut out = keypair_main.encrypt(recipient_id, &mut message).unwrap();

    keypair_2
        .decrypt(keypair_main.pub_keys, &mut out)
        .expect_err("should have failed");
}

#[test]
fn two_recipients_read_and_a_stranger_is_no_recipient() {
    let a = keypair_of(1);
    let b = keypair_of(2);
    let c = keypair_of(3);
    let d = keypair_of(4);
    let message = SecBuf::from_bytes(b"to b and c".to_vec());

    let envelope = a
        .encrypt(vec![&b.pub_keys, &c.pub_keys], &message)
        .unwrap();

    assert_eq!(3, envelope.pairs.len());
    let read_b = b.decrypt(a.get_id(), &envelope).unwrap();
    assert_eq!(b"to b and c".to_vec(), *read_b.read_lock());
    let read_c = c.decrypt(a.get_id(), &envelope).unwrap();
    assert_eq!(b"to b and c".to_vec(), *read_c.read_lock());
    assert_eq!(
        KeyError::NotARecipient,
        d.decrypt(a.get_id(), &envelope).unwrap_err()
    );
}

#[test]
fn a_wrong_sender_identity_resolves_no_secret() {
    let a = keypair_of(1);
    let b = keypair_of(2);
    let other = keypair_of(9);
    let message = SecBuf::from_bytes(vec![7; 40]);

    let envelope = a.encrypt(vec![&b.pub_keys], &message).unwrap();

    assert_eq!(
        KeyError::NotARecipient,
        b.decrypt(other.get_id(), &envelope).unwrap_err()
    );
    assert_eq!(
        vec![7; 40],
        *b.decrypt(a.get_id(), &envelope).unwrap().read_lock()
    );
}

#[test]
fn an_envelope_has_one_pair_for_each_recipient_and_one_more() {
    let a = keypair_of(1);
    let others: Vec<Keypair> = (10..15).map(keypair_of).collect();
    let message = SecBuf::from_bytes(vec![1, 2, 3]);
    for count in 0..=others.len() {
        let ids: Vec<&String> = others[..count].iter().map(|k| &k.pub_keys).collect();
        let envelope = a.encrypt(ids, &message).unwrap();
        assert_eq!(count + 1, envelope.pairs.len());
        for pair in &envelope.pairs[..count] {
            assert_eq!(24, pair.nonce.len());
            assert_eq!(32 + 16, pair.cipher.len());
        }
        assert_eq!(24, envelope.pairs[count].nonce.len());
        assert_eq!(3 + 16, envelope.pairs[count].cipher.len());
    }
}

#[test]
fn every_recipient_of_five_reads_the_payload() {
    let a = keypair_of(1);
    let others: Vec<Keypair> = (10..15).map(keypair_of).collect();
    let message = SecBuf::from_bytes(vec![42; 100]);
    let ids: Vec<&String> = others.iter().map(|k| &k.pub_keys).collect();

    let envelope = a.encrypt(ids, &message).unwrap();

    for reader in &others {
        let read = reader.decrypt(a.get_id(), &envelope).unwrap();
        assert_eq!(vec![42; 100], *read.read_lock());
        assert!(!read.secure());
    }
}

#[test]
fn each_encryption_draws_a_fresh_secret_and_fresh_nonces() {
    let a = keypair_of(1);
    let b = keypair_of(2);
    let message = SecBuf::from_bytes(vec![5; 16]);

    let first = a.encrypt(vec![&b.pub_keys], &message).unwrap();
    let second = a.encrypt(vec![&b.pub_keys], &message).unwrap();

    assert_ne!(
        *first.pairs[0].nonce.read_lock(),
        *second.pairs[0].nonce.read_lock()
    );
    assert_ne!(
        *first.pairs[0].nonce.read_lock(),
        *first.pairs[1].nonce.read_lock()
    );
    assert_ne!(
        *first.pairs[1].cipher.read_lock(),
        *second.pairs[1].cipher.read_lock()
    );
}

#[test]
fn sealing_with_given_secret_and_nonces_is_repeatable() {
    let a = keypair_of(1);
    let b = keypair_of(2);
    let message = SecBuf::from_bytes(vec![9; 10]);
    let secret = SecBuf::from_secret(vec![0x55; 32]);

    let first = a
        .seal_envelope(&vec![&b.pub_keys], &message, &secret, &nonces(2))
        .unwrap();
    let second = a
        .seal_envelope(&vec![&b.pub_keys], &message, &secret, &nonces(2))
        .unwrap();

    assert_eq!(2, first.pairs.len());
    for i in 0..2 {
        assert_eq!(vec![i as u8 + 1; 24], *first.pairs[i].nonce.read_lock());
        assert_eq!(
            *first.pairs[i].cipher.read_lock(),
            *second.pairs[i].cipher.read_lock()
        );
    }
    assert_eq!(48, first.pairs[0].cipher.len());
    assert_eq!(26, first.pairs[1].cipher.len());
    assert_ne!(vec![9; 10], first.pairs[1].cipher.read_lock()[..10].to_vec());
    assert_ne!(vec![0x55; 32], first.pairs[0].cipher.read_lock()[..32].to_vec());
    assert_eq!(
        vec![9; 10],
        *b.decrypt(a.get_id(), &first).unwrap().read_lock()
    );
}

#[test]
fn the_payload_is_sealed_under_the_secret_itself() {
    let a = keypair_of(1);
    let b = keypair_of(2);
    let message = SecBuf::from_bytes(vec![9; 10]);
    let secret = SecBuf::from_secret(vec![0x55; 32]);
    let sealed = a
        .seal_envelope(&vec![&b.pub_keys], &message, &secret, &nonces(2))
        .unwrap();

    // An envelope whose one candidate is the secret wrapped under a session
    // key opens with that session key.
    let session = SecBuf::from_secret(vec![0x77; 32]);
    let c = keypair_of(3);
    let wrapper_source = c
        .seal_envelope(&vec![], &secret, &session, &nonces(1))
        .unwrap();
    let CipherEnvelope { mut pairs } = wrapper_source;
    let wrapped = pairs.pop().unwrap();
    let CipherEnvelope { pairs: mut sealed_pairs } = sealed;
    let payload = sealed_pairs.pop().unwrap();
    let envelope = CipherEnvelope {
        pairs: vec![wrapped, payload],
    };

    let read = open_envelope(&envelope, &session).unwrap();
    assert_eq!(vec![9; 10], *read.read_lock());
}

#[test]
fn sealing_refuses_a_secret_or_nonces_that_do_not_fit() {
    let a = keypair_of(1);
    let b = keypair_of(2);
    let message = SecBuf::from_bytes(vec![9; 10]);
    let secret = SecBuf::from_secret(vec![0x55; 32]);
    let short_secret = SecBuf::from_secret(vec![0x55; 31]);

    assert_eq!(
        KeyError::PrimitiveFailure,
        a.seal_envelope(&vec![&b.pub_keys], &message, &short_secret, &nonces(2))
            .err()
            .unwrap()
    );
    assert_eq!(
        KeyError::PrimitiveFailure,
        a.seal_envelope(&vec![&b.pub_keys], &message, &secret, &nonces(1))
            .err()
            .unwrap()
    );
    let bad_nonces = vec![
        SecBuf::from_bytes(vec![1; 24]),
        SecBuf::from_bytes(vec![2; 16]),
    ];
    assert_eq!(
        KeyError::PrimitiveFailure,
        a.seal_envelope(&vec![&b.pub_keys], &message, &secret, &bad_nonces)
            .err()
            .unwrap()
    );
}

#[test]
fn a_malformed_recipient_identity_is_a_decode_failure() {
    let a = keypair_of(1);
    let b = keypair_of(2);
    let message = SecBuf::from_bytes(vec![9; 10]);
    let malformed = String::from("not an identity");

    assert_eq!(
        KeyError::DecodeFailure,
        a.encrypt(vec![&b.pub_keys, &malformed], &message)
            .err()
            .unwrap()
    );
}

#[test]
fn a_malformed_sender_identity_is_a_decode_failure() {
    let a = keypair_of(1);
    let b = keypair_of(2);
    let message = SecBuf::from_bytes(vec![9; 10]);
    let envelope = a.encrypt(vec![&b.pub_keys], &message).unwrap();

    assert_eq!(
        KeyError::DecodeFailure,
        b.decrypt(String::from("nobody"), &envelope).unwrap_err()
    );
}

#[test]
fn an_envelope_without_pairs_is_a_decode_failure() {
    let a = keypair_of(1);
    let b = keypair_of(2);
    let envelope = CipherEnvelope { pairs: Vec::new() };

    assert_eq!(
        KeyError::DecodeFailure,
        b.decrypt(a.get_id(), &envelope).unwrap_err()
    );
}

#[test]
fn an_envelope_with_the_payload_alone_has_no_recipient() {
    let a = keypair_of(1);
    let b = keypair_of(2);
    let message = SecBuf::from_bytes(vec![9; 10]);
    let envelope = a.encrypt(Vec::new(), &message).unwrap();

    assert_eq!(1, envelope.pairs.len());
    assert_eq!(
        KeyError::NotARecipient,
        b.decrypt(a.get_id(), &envelope).unwrap_err()
    );
}

#[test]
fn a_corrupted_payload_is_an_authentication_failure() {
    let a = keypair_of(1);
    let b = keypair_of(2);
    let message = SecBuf::from_bytes(vec![9; 10]);
    let CipherEnvelope { mut pairs } = a.encrypt(vec![&b.pub_keys], &message).unwrap();
    let payload = pairs.pop().unwrap();
    let mut bytes = payload.cipher.read_lock().clone();
    bytes[0] ^= 1;
    pairs.push(CipherPair {
        nonce: SecBuf::from_bytes(payload.nonce.read_lock().clone()),
        cipher: SecBuf::from_bytes(bytes),
    });
    let envelope = CipherEnvelope { pairs };

    assert_eq!(
        KeyError::AuthenticationFailure,
        b.decrypt(a.get_id(), &envelope).unwrap_err()
    );
}

#[test]
fn a_corrupted_wrapped_secret_leaves_its_recipient_out() {
    let a = keypair_of(1);
    let b = keypair_of(2);
    let c = keypair_of(3);
    let message = SecBuf::from_bytes(vec![9; 10]);
    let CipherEnvelope { mut pairs } = a
        .encrypt(vec![&b.pub_keys, &c.pub_keys], &message)
        .unwrap();
    let mut bytes = pairs[0].cipher.read_lock().clone();
    bytes[47] ^= 0x80;
    pairs[0].cipher = SecBuf::from_bytes(bytes);
    let envelope = CipherEnvelope { pairs };

    assert_eq!(
        KeyError::NotARecipient,
        b.decrypt(a.get_id(), &envelope).unwrap_err()
    );
    assert_eq!(
        vec![9; 10],
        *c.decrypt(a.get_id(), &envelope).unwrap().read_lock()
    );
}

#[test]
fn pairs_of_other_shapes_are_passed_over() {
    let a = keypair_of(1);
    let b = keypair_of(2);
    let message = SecBuf::from_bytes(vec![9; 10]);
    let CipherEnvelope { mut pairs } = a.encrypt(vec![&b.pub_keys], &message).unwrap();
    pairs.insert(
        0,
        CipherPair {
            nonce: SecBuf::from_bytes(vec![0; 16]),
            cipher: SecBuf::from_bytes(vec![0; 48]),
        },
    );
    pairs.insert(
        1,
        CipherPair {
            nonce: SecBuf::from_bytes(vec![0; 24]),
            cipher: SecBuf::from_bytes(vec![0; 3]),
        },
    );
    let envelope = CipherEnvelope { pairs };

    assert_eq!(
        vec![9; 10],
        *b.decrypt(a.get_id(), &envelope).unwrap().read_lock()
    );
}

#[test]
fn an_empty_payload_is_sealed_and_read() {
    let a = keypair_of(1);
    let b = keypair_of(2);
    let message = SecBuf::with_insecure(0);
    let envelope = a.encrypt(vec![&b.pub_keys], &message).unwrap();

    assert_eq!(16, envelope.pairs[1].cipher.len());
    assert_eq!(0, b.decrypt(a.get_id(), &envelope).unwrap().len());
}

#[test]
fn a_keypair_with_a_short_private_key_cannot_encrypt_or_decrypt() {
    let a = keypair_of(1);
    let b = keypair_of(2);
    let message = SecBuf::from_bytes(vec![9; 10]);
    let envelope = a.encrypt(vec![&b.pub_keys], &message).unwrap();
    let broken = Keypair {
        pub_keys: b.get_id(),
        sign_priv: SecBuf::from_secret(vec![0; 64]),
        enc_priv: SecBuf::from_secret(vec![0; 31]),
    };

    assert_eq!(
        KeyError::PrimitiveFailure,
        broken.encrypt(vec![&a.pub_keys], &message).err().unwrap()
    );
    assert_eq!(
        KeyError::PrimitiveFailure,
        broken.decrypt(a.get_id(), &envelope).unwrap_err()
    );
}

#[test]
fn a_sealed_envelope_has_its_known_bytes() {
    let a = keypair_of(1);
    let b = keypair_of(2);
    let message = SecBuf::from_bytes(vec![9; 10]);
    let secret = SecBuf::from_secret(vec![0x55; 32]);

    let envelope = a
        .seal_envelope(&vec![&b.pub_keys], &message, &secret, &nonces(2))
        .unwrap();

    assert_eq!(vec![1; 24], *envelope.pairs[0].nonce.read_lock());
    assert_eq!(
        hex(
            "7e8fb1d9d0a1ea5d92bf441d17194aa50f57e0cc81635854e41e3a6809d8c082\
             c622caf245ec0083d19b9f6993c59420"
        ),
        *envelope.pairs[0].cipher.read_lock()
    );
    assert_eq!(vec![2; 24], *envelope.pairs[1].nonce.read_lock());
    assert_eq!(
        hex("7ed60c33ad354084eca34c77bd57b0005f96e4d24897adefd67c"),
        *envelope.pairs[1].cipher.read_lock()
    );
}

#[test]
fn a_known_envelope_opens_with_the_key_of_its_session() {
    let envelope = CipherEnvelope {
        pairs: vec![
            CipherPair {
                nonce: SecBuf::from_bytes(vec![1; 24]),
                cipher: SecBuf::from_bytes(hex(
                    "7e8fb1d9d0a1ea5d92bf441d17194aa50f57e0cc81635854e41e3a6809d8c082\
                     c622caf245ec0083d19b9f6993c59420",
                )),
            },
            CipherPair {
                nonce: SecBuf::from_bytes(vec![2; 24]),
                cipher: SecBuf::from_bytes(hex(
                    "7ed60c33ad354084eca34c77bd57b0005f96e4d24897adefd67c",
                )),
            },
        ],
    };
    let session = SecBuf::from_secret(hex(
        "b41ff005bf697490589ef3306ed9c0250d262947305966b8aa8a7e435a73df2e",
    ));
    let other = SecBuf::from_secret(vec![0; 32]);

    assert_eq!(
        vec![9; 10],
        *open_envelope(&envelope, &session).unwrap().read_lock()
    );
    assert_eq!(
        KeyError::NotARecipient,
        open_envelope(&envelope, &other).unwrap_err()
    );
    assert_eq!(
        vec![9; 10],
        *keypair_of(2)
            .decrypt(keypair_of(1).get_id(), &envelope)
            .unwrap()
            .read_lock()
    );
}

#[test]
fn an_envelope_without_pairs_is_a_decode_failure_whoever_reads_it() {
    let a = keypair_of(1);
    let envelope = CipherEnvelope { pairs: Vec::new() };
    let broken = Keypair {
        pub_keys: keypair_of(2).get_id(),
        sign_priv: SecBuf::from_secret(vec![0; 64]),
        enc_priv: SecBuf::from_secret(vec![0; 31]),
    };

    assert_eq!(
        KeyError::DecodeFailure,
        broken.decrypt(a.get_id(), &envelope).unwrap_err()
    );
    assert_eq!(
        KeyError::DecodeFailure,
        a.decrypt(String::from("nobody"), &envelope).unwrap_err()
    );
    assert_eq!(
        KeyError::DecodeFailure,
        open_envelope(&envelope, &SecBuf::from_secret(vec![0; 32])).unwrap_err()
    );
}

#[test]
fn a_reader_who_names_another_sender_reads_nothing() {
    let a = keypair_of(21);
    let b = keypair_of(22);
    let x = keypair_of(23);
    let message = SecBuf::from_bytes(b"for b, from a".to_vec());
    let envelope = a.encrypt(vec![&b.pub_keys], &message).unwrap();
    assert_ne!(a.pub_keys, x.pub_keys);

    let read = b.decrypt(x.get_id(), &envelope);

    assert_eq!(KeyError::NotARecipient, read.unwrap_err());
    assert_eq!(
        KeyError::NotARecipient,
        b.decrypt(b.get_id(), &envelope).unwrap_err()
    );
}
