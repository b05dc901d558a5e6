//! Public-key encryption as two endpoints over the age format: X25519
//! recipients, ASCII armor.
//!
//! - `urn:encrypt:encrypt` is open. It seals the text in `in` (or piped as
//!   `content`) to the recipients that the resource named by `to` lists, one to
//!   a line; any one of them can open the result.
//! - `urn:encrypt:decrypt` asks for the capability [`CAP_DECRYPT`]. It opens
//!   the armored text in `in` (or `content`) with the identity that the
//!   resource named by `key` holds.
//!
//! Neither endpoint reads a key itself. A call runs in two steps around that
//! read: `invoke` checks what the caller gave and says which resource holds the
//! key; the host reads it; `resume` does the rest with the bytes that came
//! back. Where `invoke` fails, no key is read.
use vstd::prelude::*;

pub mod age_format;
pub mod decrypt;
pub mod describe;
pub mod encrypt;
pub mod error;
pub mod guarantees;
pub mod invocation;
pub mod laws;
pub mod repr;
pub mod text;

pub use crate::decrypt::{Decrypt, CAP_DECRYPT};
pub use crate::encrypt::Encrypt;

verus! {

/// One of the two endpoints.
#[derive(Clone, Copy, Debug, PartialEq, Eq)]
pub enum Endpoint {
    Encrypt,
    Decrypt,
}

/// An endpoint and the IRI at which it answers.
#[derive(Debug, PartialEq, Eq)]
pub struct Binding {
    pub iri: String,
    pub endpoint: Endpoint,
}

/// What a list of bindings says.
pub open spec fn bound(bindings: Seq<Binding>) -> Seq<(Seq<char>, Endpoint)> {
    bindings.map_values(|binding: Binding| (binding.iri@, binding.endpoint))
}

/// The endpoints to mount, each with its IRI.
pub fn space() -> (bindings: Vec<Binding>)
    ensures
        bound(bindings@) == seq![
            ("urn:encrypt:encrypt"@, Endpoint::Encrypt),
            ("urn:encrypt:decrypt"@, Endpoint::Decrypt),
        ],
{
    let encrypt = Binding { iri: "urn:encrypt:encrypt".to_string(), endpoint: Endpoint::Encrypt };
    let decrypt = Binding { iri: "urn:encrypt:decrypt".to_string(), endpoint: Endpoint::Decrypt };
    vec![encrypt, decrypt]
}

} // verus!
