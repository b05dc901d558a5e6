//! `urn:encrypt:decrypt`: opens armored text with the identity that a key
//! resource holds. For callers with the capability to decrypt.
use vstd::prelude::*;
use vstd::utf8::*;

use crate::age_format::{self, OpenFault};
use crate::describe::{ArgSpec, ArgSpecView, Description, DescriptionView, Verb};
use crate::describe::{RDFS_RESOURCE, XSD_STRING};
use crate::error::{self, Error, ErrorView};
use crate::invocation::{self, ArgView, Capability, Invocation, Pending, PendingView};
use crate::repr::{self, Expiry, ReprType, ReprTypeView, Representation, RepresentationView};
use crate::text;

verus! {

/// The capability that decryption asks for, since it wields a private key.
pub const CAP_DECRYPT: &'static str = "urn:cap:decrypt";

/// The refusal of a caller without the capability to decrypt.
pub open spec fn refusal() -> ErrorView {
    ErrorView::Denied("urn:encrypt:decrypt requires the "@ + CAP_DECRYPT@ + " capability"@)
}

/// A call that waits for its key, or why it is refused. The capability comes
/// first.
pub open spec fn invoked(
    arguments: Map<Seq<char>, ArgView>,
    capability: Capability,
) -> Result<PendingView, ErrorView> {
    if capability.holds(CAP_DECRYPT@) {
        invocation::pending_of(arguments, "key"@, "urn:encrypt:decrypt"@)
    } else {
        Err(refusal())
    }
}

/// The text of the identity that a key resource holds, or the error that it
/// draws.
pub open spec fn identity_of(key: Seq<u8>) -> Result<Seq<char>, ErrorView> {
    match invocation::key_text_of(key, "urn:encrypt:decrypt"@) {
        Err(error) => Err(error),
        Ok(text) => match age_format::age_identity(text::trimmed(text)) {
            Err(reason) => Err(
                ErrorView::Endpoint("urn:encrypt:decrypt: bad age identity: "@ + reason),
            ),
            Ok(_) => Ok(text::trimmed(text)),
        },
    }
}

/// The errors that a key resource can draw. Each is a fixed text: none repeats
/// what the resource served.
pub open spec fn key_fault(error: ErrorView) -> bool {
    error matches ErrorView::Endpoint(message) && {
        ||| message == "urn:encrypt:decrypt"@ + ": key resource is not UTF-8 text"@
        ||| message == "urn:encrypt:decrypt: bad age identity: "@ + "invalid Bech32 encoding"@
        ||| message == "urn:encrypt:decrypt: bad age identity: "@ + "incorrect HRP"@
        ||| message == "urn:encrypt:decrypt: bad age identity: "@ + "incorrect identity length"@
    }
}

/// The type of a plaintext.
pub open spec fn plain_type() -> ReprTypeView {
    ReprTypeView { media_type: "application/octet-stream"@, params: seq![] }
}

/// A plaintext as it is served: cacheable, as far as this endpoint can tell.
pub open spec fn plain_view(bytes: Seq<u8>) -> RepresentationView {
    RepresentationView { repr_type: plain_type(), bytes, expiry: Expiry::Never }
}

/// The message is `prefix` and then the text of an error of decryption.
pub open spec fn shows_decrypt_error(prefix: Seq<char>, message: Seq<char>) -> bool {
    exists|e: age::DecryptError| #[trigger] error::shown(prefix, &e, message)
}

/// The message is `prefix` and then the text of an error of reading.
pub open spec fn shows_io_error(prefix: Seq<char>, message: Seq<char>) -> bool {
    exists|e: std::io::Error| #[trigger] error::shown(prefix, &e, message)
}

/// The outcome of opening `sealed` with an identity: the plaintext; or, behind
/// what the failed step has in front, the text of that step's error on these
/// two and nothing else.
pub open spec fn serves_opened(
    served: Result<RepresentationView, ErrorView>,
    sealed: Seq<u8>,
    identity: Seq<char>,
) -> bool {
    if !age_format::age_header(sealed) {
        served matches Err(ErrorView::Endpoint(message)) && {
            let prefix = "urn:encrypt:decrypt: "@;
            &&& shows_decrypt_error(prefix, message)
            &&& error::worded(prefix, age_format::age_header_errors(sealed), message)
        }
    } else if !age_format::age_unlocks(sealed, identity) {
        served matches Err(ErrorView::Denied(message)) && {
            let prefix = "urn:encrypt:decrypt: "@;
            &&& shows_decrypt_error(prefix, message)
            &&& error::worded(prefix, age_format::age_key_errors(sealed, identity), message)
        }
    } else {
        match age_format::age_payload(sealed, identity) {
            None => served matches Err(ErrorView::Endpoint(message)) && {
                let prefix = "urn:encrypt:decrypt: read: "@;
                &&& shows_io_error(prefix, message)
                &&& error::worded(prefix, age_format::age_read_errors(sealed, identity), message)
            },
            Some(plaintext) => served == Ok::<RepresentationView, ErrorView>(
                plain_view(plaintext),
            ),
        }
    }
}

/// How the endpoint describes itself.
pub open spec fn description() -> DescriptionView {
    DescriptionView {
        id: "decrypt"@,
        title: "Decrypt (age / X25519)"@,
        summary: "Open ASCII-armored age ciphertext with a kernel-resolved identity. Pass the ciphertext as `in` (or piped `content`) and the identity resource as `key=` (an `AGE-SECRET-KEY-1…`). Requires the urn:cap:decrypt capability (it wields the private key); a wrong key or tampered ciphertext is a typed Denied/error."@,
        verbs: seq![Verb::Source, Verb::Meta],
        requires: seq![CAP_DECRYPT@],
        inputs: seq![
            ArgSpecView {
                name: "in"@,
                summary: "the armored age ciphertext (positional or piped as `content`)"@,
                required: true,
                class: XSD_STRING@,
            },
            ArgSpecView {
                name: "key"@,
                summary: "the owner's identity resource (AGE-SECRET-KEY-1…)"@,
                required: true,
                class: RDFS_RESOURCE@,
            },
        ],
        outputs: seq!["application/octet-stream"@],
    }
}

/// `urn:encrypt:decrypt`: opens `in` with the identity that `key` names.
pub struct Decrypt;

impl Decrypt {
    /// The endpoint's name.
    pub fn name(&self) -> (r: &str)
        ensures
            r@ == description().id,
    {
        "decrypt"
    }

    /// Describes the endpoint.
    pub fn describe(&self) -> (r: Description)
        ensures
            r@ == description(),
    {
        let scopes: Vec<String> = vec![CAP_DECRYPT.to_string()];
        let inputs: Vec<ArgSpec> = vec![
            ArgSpec::required(
                "in",
                "the armored age ciphertext (positional or piped as `content`)",
                XSD_STRING,
            ),
            ArgSpec::required(
                "key",
                "the owner's identity resource (AGE-SECRET-KEY-1…)",
                RDFS_RESOURCE,
            ),
        ];
        let r = Description {
            id: "decrypt".to_string(),
            title: "Decrypt (age / X25519)".to_string(),
            summary: "Open ASCII-armored age ciphertext with a kernel-resolved identity. Pass the ciphertext as `in` (or piped `content`) and the identity resource as `key=` (an `AGE-SECRET-KEY-1…`). Requires the urn:cap:decrypt capability (it wields the private key); a wrong key or tampered ciphertext is a typed Denied/error.".to_string(),
            verbs: vec![Verb::Source, Verb::Meta],
            requires: scopes,
            inputs,
            outputs: vec!["application/octet-stream".to_string()],
        };
        assert(r@.verbs == description().verbs);
        assert(r@.requires == description().requires);
        assert(r@.inputs == description().inputs);
        assert(r@.outputs == description().outputs);
        r
    }

    /// Takes a call up to the point where its key resource is to be read. A
    /// caller without the capability is refused before anything else is looked
    /// at.
    pub fn invoke(&self, invocation: &Invocation) -> (pending: Result<Pending, Error>)
        ensures
            invocation::pending_outcome(pending) == invoked(
                invocation.arguments@,
                invocation.capability,
            ),
    {
        proof {
            lemma_plain();
        }
        if invocation::allows(&invocation.capability, CAP_DECRYPT) {
            invocation::await_key(&invocation.arguments, "key", "urn:encrypt:decrypt")
        } else {
            Err(
                Error::Denied(
                    "urn:encrypt:decrypt requires the ".to_string().concat(CAP_DECRYPT).concat(
                        " capability",
                    ),
                ),
            )
        }
    }

    /// Reads the identity from what the key resource served. An identity is
    /// never an IRI, so one passed by value in place of its IRI is refused.
    pub fn identity(&self, key: Vec<u8>) -> (identity: Result<String, Error>)
        ensures
            invocation::text_outcome(identity) == identity_of(key@),
            identity matches Ok(identity) ==> !invocation::is_iri(identity@),
            identity matches Err(error) ==> key_fault(error@),
    {
        match invocation::key_text(key, "urn:encrypt:decrypt") {
            Err(error) => Err(error),
            Ok(text) => {
                let identity = text::trim(text.as_str());
                match age_format::parse_identity(identity.as_str()) {
                    Err(reason) => Err(
                        Error::Endpoint(
                            "urn:encrypt:decrypt: bad age identity: ".to_string().concat(reason),
                        ),
                    ),
                    Ok(_) => Ok(identity),
                }
            },
        }
    }

    /// Serves what opening gave, or reports how it failed: a key that does not
    /// fit is a denial, anything else a fault.
    pub fn opened(&self, opened: Result<Vec<u8>, OpenFault>) -> (served: Result<
        Representation,
        Error,
    >)
        ensures
            match opened {
                Ok(plaintext) => served matches Ok(served) && served@ == plain_view(plaintext@),
                Err(OpenFault::Header(e)) => served matches Err(Error::Endpoint(message))
                    && error::shown("urn:encrypt:decrypt: "@, &e, message@),
                Err(OpenFault::Key(e)) => served matches Err(Error::Denied(message))
                    && error::shown("urn:encrypt:decrypt: "@, &e, message@),
                Err(OpenFault::Body(e)) => served matches Err(Error::Endpoint(message))
                    && error::shown("urn:encrypt:decrypt: read: "@, &e, message@),
            },
    {
        match opened {
            Ok(plaintext) => {
                let repr_type = ReprType {
                    media_type: "application/octet-stream".to_string(),
                    params: Vec::new(),
                };
                assert(repr_type@.params == plain_type().params);
                Ok(Representation { repr_type, bytes: plaintext, expiry: Expiry::Never })
            },
            Err(OpenFault::Header(e)) => Err(
                Error::Endpoint(error::show("urn:encrypt:decrypt: ", e)),
            ),
            Err(OpenFault::Key(e)) => Err(Error::Denied(error::show("urn:encrypt:decrypt: ", e))),
            Err(OpenFault::Body(e)) => Err(
                Error::Endpoint(error::show("urn:encrypt:decrypt: read: ", e)),
            ),
        }
    }

    /// Completes a call with what its key resource served. An error of opening
    /// is reported in the words of that error and in no others; which of its
    /// wordings it is follows the locale that the process has chosen.
    pub fn resume(&self, pending: &Pending, key: Vec<u8>) -> (served: Result<
        Representation,
        Error,
    >)
        ensures
            match identity_of(key@) {
                Err(error) => served matches Err(e) && e@ == error && key_fault(error),
                Ok(identity) => serves_opened(
                    repr::outcome(served),
                    encode_utf8(pending@.input),
                    identity,
                ),
            },
    {
        match self.identity(key) {
            Err(error) => Err(error),
            Ok(identity) => {
                let opened = age_format::open_armored(
                    pending.input.as_str().as_bytes(),
                    identity.as_str(),
                );
                let ghost outcome = opened;
                let served = self.opened(opened);
                proof {
                    match outcome {
                        Ok(_) => {},
                        Err(OpenFault::Header(e)) => {
                            let message = served->Err_0->Endpoint_0@;
                            assert(error::shown("urn:encrypt:decrypt: "@, &e, message));
                        },
                        Err(OpenFault::Key(e)) => {
                            let message = served->Err_0->Denied_0@;
                            assert(error::shown("urn:encrypt:decrypt: "@, &e, message));
                        },
                        Err(OpenFault::Body(e)) => {
                            let message = served->Err_0->Endpoint_0@;
                            assert(error::shown("urn:encrypt:decrypt: read: "@, &e, message));
                        },
                    }
                }
                served
            },
        }
    }
}

/// The capability to decrypt is granted by being held.
pub proof fn lemma_plain()
    ensures
        invocation::plain_scope(CAP_DECRYPT@),
{
    reveal_strlit("urn:cap:decrypt");
    reveal_strlit("urn:cap:principal:");
}

} // verus!
