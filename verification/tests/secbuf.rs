use hc_dpki::error::KeyError;
use hc_dpki::bytes::zeroed;
use hc_dpki::secbuf::{random_secbuf, SecBuf};

#[test]
fn a_new_buffer_is_filled_with_zeroes() {
    let insecure = SecBuf::with_insecure(16);
    let secure = SecBuf::with_secure(64);
    let empty = SecBuf::with_insecure(0);

    assert_eq!(16, insecure.len());
    assert_eq!(vec![0; 16], *insecure.read_lock());
    assert!(!insecure.secure());
    assert_eq!(64, secure.len());
    assert_eq!(vec![0; 64], *secure.read_lock());
    assert!(secure.secure());
    assert_eq!(0, empty.len());
    assert_eq!(vec![0; 7], zeroed(7));
}

#[test]
fn a_buffer_takes_bytes_over() {
    let plain = SecBuf::from_bytes(vec![1, 2, 3]);
    let secret = SecBuf::from_secret(vec![4, 5]);

    assert_eq!(vec![1, 2, 3], *plain.read_lock());
    assert!(!plain.secure());
    assert_eq!(vec![4, 5], *secret.read_lock());
    assert!(secret.secure());
}

#[test]
fn assigning_replaces_the_bytes_and_keeps_the_class() {
    let mut plain = SecBuf::with_insecure(4);
    let mut secret = SecBuf::from_secret(vec![9; 8]);

    plain.assign(vec![1, 2]);
    secret.assign(vec![3, 4, 5]);

    assert_eq!(vec![1, 2], *plain.read_lock());
    assert!(!plain.secure());
    assert_eq!(vec![3, 4, 5], *secret.read_lock());
    assert!(secret.secure());
}

#[test]
fn random_bytes_keep_length_and_class() {
    let mut first = SecBuf::with_secure(32);
    let mut second = SecBuf::with_insecure(32);

    assert_eq!(Ok::<(), KeyError>(()), random_secbuf(&mut first));
    assert_eq!(Ok::<(), KeyError>(()), second.randomize());

    assert_eq!(32, first.len());
    assert!(first.secure());
    assert_eq!(32, second.len());
    assert!(!second.secure());
    assert_ne!(vec![0; 32], *first.read_lock());
    assert_ne!(*first.read_lock(), *second.read_lock());
}

#[test]
fn an_empty_buffer_is_randomized_to_itself() {
    let mut empty = SecBuf::with_insecure(0);

    assert_eq!(Ok::<(), KeyError>(()), random_secbuf(&mut empty));
    assert_eq!(Ok::<(), KeyError>(()), empty.randomize());

    assert_eq!(0, empty.len());
    assert!(!empty.secure());
}

#[test]
fn a_wiped_buffer_is_empty() {
    let mut secret = SecBuf::from_secret(vec![7; 32]);
    let mut plain = SecBuf::from_bytes(vec![7; 5]);

    secret.wipe();
    plain.wipe();

    assert_eq!(0, secret.len());
    assert!(secret.secure());
    assert_eq!(Vec::<u8>::new(), *secret.read_lock());
    assert_eq!(0, plain.len());
    assert!(!plain.secure());
}
