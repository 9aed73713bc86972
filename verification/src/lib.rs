//! Identity and secure messaging for a peer.
//!
//! A peer derives its keypair from a seed (`keypair`), shows the two public
//! keys as one identity string (`identity`), signs data and verifies
//! signatures, seals a payload so that each of a list of recipients and
//! nobody else can read it (`envelope`), and stores its keypair under a
//! passphrase (`bundle`, `record`).
//!
//! Secrets live in buffers that are wiped when they are released (`secbuf`).
//! The cryptography itself (`provider`) and the text encodings (`encoding`)
//! are those of other crates; what this library assumes of them is stated
//! where they are called, and everything else is proved.
//!
//! Two small modules stand beside these: the answer of a lookup and its JSON
//! text (`get_entry`), and the open direct connections of the network layer
//! (`network`).

pub mod bundle;
pub mod bytes;
pub mod encoding;
pub mod envelope;
pub mod error;
pub mod get_entry;
pub mod identity;
pub mod keypair;
pub mod network;
pub mod provider;
pub mod record;
pub mod secbuf;
