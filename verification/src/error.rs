use vstd::prelude::*;

verus! {

/// Why an operation of this library did not produce its result.
#[derive(Clone, Copy, Debug, PartialEq, Eq, Structural)]
pub enum KeyError {
    /// The cryptography provider reported an internal error.
    PrimitiveFailure,
    /// An identity string, an envelope or a bundle is malformed.
    DecodeFailure,
    /// A passphrase is wrong, or a payload did not authenticate under a
    /// secret that had been recovered.
    AuthenticationFailure,
    /// No wrapped secret of an envelope opens for the caller.
    NotARecipient,
}

impl KeyError {
    /// A short description of the error.
    pub fn message(&self) -> (text: &'static str)
        ensures
            text@ == match *self {
                KeyError::PrimitiveFailure => "cryptography provider failed"@,
                KeyError::DecodeFailure => "malformed input"@,
                KeyError::AuthenticationFailure => "authentication failed"@,
                KeyError::NotARecipient => "could not decrypt - not a recipient?"@,
            },
    {
        match self {
            KeyError::PrimitiveFailure => "cryptography provider failed",
            KeyError::DecodeFailure => "malformed input",
            KeyError::AuthenticationFailure => "authentication failed",
            KeyError::NotARecipient => "could not decrypt - not a recipient?",
        }
    }
}

} // verus!
