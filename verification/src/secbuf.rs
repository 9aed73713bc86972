//! Byte buffers that know whether they hold a secret.
//!
//! A buffer of the secure class is wiped when it is released, on every path
//! on which its owner goes out of scope.

use crate::bytes::{zeroed, zeroes};
use crate::error::KeyError;
use vstd::prelude::*;

verus! {

/// An owned byte buffer of the insecure class (an ordinary allocation) or of
/// the secure class (wiped on release).
#[derive(Debug)]
pub struct SecBuf {
    bytes: Vec<u8>,
    secure: bool,
}

impl View for SecBuf {
    type V = Seq<u8>;

    closed spec fn view(&self) -> Seq<u8> {
        self.bytes@
    }
}

/// `Zeroize::zeroize` of the crate zeroize, on a `Vec<u8>`: it overwrites
/// the elements and the spare capacity with zeroes and then clears the
/// vector, so that it is empty afterwards.
#[verifier::external_body]
fn zeroize_bytes(bytes: &mut Vec<u8>)
    ensures
        final(bytes)@.len() == 0,
    opens_invariants none
    no_unwind
{
    zeroize::Zeroize::zeroize(bytes);
}

/// `getrandom::fill` of the crate getrandom: it overwrites the bytes in
/// place with bytes of the system's random source and reports whether the
/// source delivered. For no bytes it succeeds at once, without asking the
/// source. Nothing is claimed of the bytes themselves.
#[verifier::external_body]
fn fill_random(bytes: &mut Vec<u8>) -> (filled: bool)
    ensures
        final(bytes)@.len() == old(bytes)@.len(),
        old(bytes)@.len() == 0 ==> filled,
{
    getrandom::fill(bytes.as_mut_slice()).is_ok()
}

impl Drop for SecBuf {
    fn drop(&mut self)
        opens_invariants none
        no_unwind
    {
        if self.secure {
            zeroize_bytes(&mut self.bytes);
        }
    }
}

impl SecBuf {
    /// Whether the buffer is of the secure class.
    pub closed spec fn is_secure(&self) -> bool {
        self.secure
    }

    /// A zero-filled buffer of `len` bytes of the insecure class.
    pub fn with_insecure(len: usize) -> (buf: SecBuf)
        ensures
            buf@ == zeroes(len as nat),
            !buf.is_secure(),
    {
        SecBuf { bytes: zeroed(len), secure: false }
    }

    /// A zero-filled buffer of `len` bytes of the secure class.
    pub fn with_secure(len: usize) -> (buf: SecBuf)
        ensures
            buf@ == zeroes(len as nat),
            buf.is_secure(),
    {
        SecBuf { bytes: zeroed(len), secure: true }
    }

    /// Takes over `bytes` as a buffer of the insecure class.
    pub fn from_bytes(bytes: Vec<u8>) -> (buf: SecBuf)
        ensures
            buf@ == bytes@,
            !buf.is_secure(),
    {
        SecBuf { bytes, secure: false }
    }

    /// Takes over `bytes` as a buffer of the secure class: no copy of them is
    /// left behind, and they are wiped when the buffer is released.
    pub fn from_secret(bytes: Vec<u8>) -> (buf: SecBuf)
        ensures
            buf@ == bytes@,
            buf.is_secure(),
    {
        SecBuf { bytes, secure: true }
    }

    /// The number of bytes in the buffer.
    pub fn len(&self) -> (n: usize)
        ensures
            n == self@.len(),
    {
        self.bytes.len()
    }

    /// Whether the buffer is of the secure class.
    pub fn secure(&self) -> (flag: bool)
        ensures
            flag == self.is_secure(),
    {
        self.secure
    }

    /// The bytes of the buffer, for reading.
    pub fn read_lock(&self) -> (bytes: &Vec<u8>)
        ensures
            bytes@ == self@,
    {
        &self.bytes
    }

    /// Wipes the buffer now, whatever its class: its bytes are overwritten
    /// with zeroes and it is empty afterwards.
    pub fn wipe(&mut self)
        ensures
            final(self)@.len() == 0,
            final(self).is_secure() == old(self).is_secure(),
    {
        zeroize_bytes(&mut self.bytes);
    }

    /// Replaces the bytes of the buffer by `bytes`, which it takes over. The
    /// class stays; a buffer of the secure class wipes what it held.
    pub fn assign(&mut self, bytes: Vec<u8>)
        ensures
            final(self)@ == bytes@,
            final(self).is_secure() == old(self).is_secure(),
    {
        if self.secure {
            zeroize_bytes(&mut self.bytes);
        }
        self.bytes = bytes;
    }

    /// Overwrites the buffer with random bytes. The length and the class
    /// stay; `PrimitiveFailure` says that the random source did not deliver,
    /// and then nothing is known of the bytes. An empty buffer stays as it
    /// is, and for it the call always succeeds: the source is not asked.
    pub fn randomize(&mut self) -> (done: Result<(), KeyError>)
        ensures
            final(self)@.len() == old(self)@.len(),
            final(self).is_secure() == old(self).is_secure(),
            done is Err ==> done == Err::<(), KeyError>(KeyError::PrimitiveFailure),
            old(self)@.len() == 0 ==> done is Ok && final(self)@ == old(self)@,
    {
        if fill_random(&mut self.bytes) {
            Ok(())
        } else {
            Err(KeyError::PrimitiveFailure)
        }
    }
}

/// Overwrites `buf` with random bytes, as `SecBuf::randomize` does: the
/// length and the class stay, `PrimitiveFailure` says that the random source
/// did not deliver, and an empty buffer stays as it is, with success.
pub fn random_secbuf(buf: &mut SecBuf) -> (done: Result<(), KeyError>)
    ensures
        final(buf)@.len() == old(buf)@.len(),
        final(buf).is_secure() == old(buf).is_secure(),
        done is Err ==> done == Err::<(), KeyError>(KeyError::PrimitiveFailure),
        old(buf)@.len() == 0 ==> done is Ok && final(buf)@ == old(buf)@,
{
    buf.randomize()
}

} // verus!
