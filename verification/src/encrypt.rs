//! `urn:encrypt:encrypt`: seals text to the recipients that a key resource
//! lists. Open to every caller.
use vstd::prelude::*;
use vstd::utf8::*;

use crate::age_format::{self, SealFault};
use crate::describe::{ArgSpec, ArgSpecView, Description, DescriptionView, Verb};
use crate::describe::{RDFS_RESOURCE, XSD_STRING};
use crate::error::{self, Error, ErrorView};
use crate::invocation::{self, Invocation, Pending};
use crate::repr::{self, Expiry, ReprType, ReprTypeView, Representation, RepresentationView};
use crate::text;

verus! {

/// The recipients that `lines` name, each in canonical form, or why the first
/// line that names none is refused.
pub open spec fn parsed(lines: Seq<Seq<char>>) -> Result<Seq<Seq<char>>, Seq<char>>
    decreases lines.len(),
{
    if lines.len() == 0 {
        Ok(Seq::empty())
    } else {
        match parsed(lines.drop_last()) {
            Err(reason) => Err(reason),
            Ok(before) => match age_format::age_recipient(lines.last()) {
                Err(reason) => Err(reason),
                Ok(key) => Ok(before.push(key)),
            },
        }
    }
}

/// The recipients that a key resource lists, or the error that it draws.
pub open spec fn recipients_of(key: Seq<u8>) -> Result<Seq<Seq<char>>, ErrorView> {
    match invocation::key_text_of(key, "urn:encrypt:encrypt"@) {
        Err(error) => Err(error),
        Ok(text) => match parsed(text::key_lines(text)) {
            Err(reason) => Err(
                ErrorView::Endpoint("urn:encrypt:encrypt: bad age recipient: "@ + reason),
            ),
            Ok(recipients) => if recipients.len() == 0 {
                Err(
                    ErrorView::Endpoint(
                        "urn:encrypt:encrypt: `to` has no age recipients (expected age1…)"@,
                    ),
                )
            } else {
                Ok(recipients)
            },
        },
    }
}

/// The errors that a key resource can draw. Each is a fixed text: none repeats
/// what the resource served.
pub open spec fn key_fault(error: ErrorView) -> bool {
    error matches ErrorView::Endpoint(message) && {
        ||| message == "urn:encrypt:encrypt"@ + ": key resource is not UTF-8 text"@
        ||| message == "urn:encrypt:encrypt: bad age recipient: "@ + "invalid Bech32 encoding"@
        ||| message == "urn:encrypt:encrypt: bad age recipient: "@ + "incorrect HRP"@
        ||| message == "urn:encrypt:encrypt: bad age recipient: "@ + "incorrect pubkey length"@
        ||| message == "urn:encrypt:encrypt: `to` has no age recipients (expected age1…)"@
    }
}

/// The type of armored text.
pub open spec fn armored_type() -> ReprTypeView {
    ReprTypeView { media_type: "text/plain"@, params: seq![("charset"@, "utf-8"@)] }
}

/// Armored text as it is served: never cacheable.
pub open spec fn armored_view(bytes: Seq<u8>) -> RepresentationView {
    RepresentationView { repr_type: armored_type(), bytes, expiry: Expiry::Always }
}

/// What a list of recipients or an error says.
pub open spec fn recipients_outcome(result: Result<Vec<String>, Error>) -> Result<
    Seq<Seq<char>>,
    ErrorView,
> {
    match result {
        Ok(recipients) => Ok(text::views(recipients@)),
        Err(error) => Err(error@),
    }
}

/// Once a line is refused, further lines do not change the refusal.
pub proof fn lemma_refusal_stays(lines: Seq<Seq<char>>, n: int)
    requires
        0 <= n <= lines.len(),
        parsed(lines.take(n)) is Err,
    ensures
        parsed(lines) == parsed(lines.take(n)),
    decreases lines.len(),
{
    if n == lines.len() {
        assert(lines.take(n) == lines);
    } else {
        assert(lines.drop_last().take(n) == lines.take(n));
        lemma_refusal_stays(lines.drop_last(), n);
    }
}

/// Parses lines as recipients.
fn parse_lines(lines: &Vec<String>) -> (recipients: Result<Vec<String>, &'static str>)
    ensures
        (match recipients {
            Ok(recipients) => Ok(text::views(recipients@)),
            Err(reason) => Err(reason@),
        }) == parsed(text::views(lines@)),
        recipients matches Ok(recipients) ==> forall|i: int|
            0 <= i < recipients@.len() ==> age_format::age_recipient(#[trigger] recipients@[i]@)
                == Ok::<Seq<char>, Seq<char>>(recipients@[i]@),
        recipients matches Err(reason) ==> age_format::recipient_refusal(reason@),
{
    let mut recipients: Vec<String> = Vec::new();
    let ghost all = text::views(lines@);
    let mut next: usize = 0;
    assert(text::views(recipients@) == Seq::<Seq<char>>::empty());
    while next < lines.len()
        invariant
            next <= lines@.len(),
            all == text::views(lines@),
            parsed(all.take(next as int)) == Ok::<Seq<Seq<char>>, Seq<char>>(
                text::views(recipients@),
            ),
            forall|i: int|
                0 <= i < recipients@.len() ==> age_format::age_recipient(#[trigger] recipients@[i]@)
                    == Ok::<Seq<char>, Seq<char>>(recipients@[i]@),
        decreases lines@.len() - next,
    {
        assert(all.take(next + 1).drop_last() == all.take(next as int));
        assert(all.take(next + 1).last() == lines@[next as int]@);
        match age_format::parse_recipient(lines[next].as_str()) {
            Err(reason) => {
                proof {
                    lemma_refusal_stays(all, next + 1);
                }
                return Err(reason);
            },
            Ok(key) => {
                let ghost before = text::views(recipients@);
                recipients.push(key);
                assert(text::views(recipients@) == before.push(key@));
            },
        }
        next = next + 1;
    }
    assert(all.take(next as int) == all);
    Ok(recipients)
}

/// Serves armored text.
fn armored(body: String) -> (r: Representation)
    ensures
        r@ == armored_view(encode_utf8(body@)),
{
    let params = vec![("charset".to_string(), "utf-8".to_string())];
    let repr_type = ReprType { media_type: "text/plain".to_string(), params };
    assert(repr_type@.params == armored_type().params);
    Representation { repr_type, bytes: body.as_str().as_bytes_vec(), expiry: Expiry::Always }
}

/// The message for a fault: what it begins with, and the text of the error
/// behind it.
pub open spec fn fault_message(fault: SealFault, message: Seq<char>) -> bool {
    match fault {
        SealFault::Recipients(error) => error::shown("urn:encrypt:encrypt: "@, &error, message),
        SealFault::Armor(error) => error::shown("urn:encrypt:encrypt: armor: "@, &error, message),
        SealFault::Header(error) => error::shown("urn:encrypt:encrypt: "@, &error, message),
        SealFault::Write(error) => error::shown("urn:encrypt:encrypt: write: "@, &error, message),
        SealFault::Finish(error) => error::shown("urn:encrypt:encrypt: finish: "@, &error, message),
        SealFault::ArmorFinish(error) => error::shown(
            "urn:encrypt:encrypt: armor finish: "@,
            &error,
            message,
        ),
    }
}

/// The message is `prefix` and then the text of an error of encryption.
pub open spec fn shows_encrypt_error(prefix: Seq<char>, message: Seq<char>) -> bool {
    exists|e: age::EncryptError| #[trigger] error::shown(prefix, &e, message)
}

/// Tells what went wrong in sealing.
fn describe_fault(fault: SealFault) -> (message: String)
    ensures
        fault_message(fault, message@),
{
    match fault {
        SealFault::Recipients(error) => error::show("urn:encrypt:encrypt: ", error),
        SealFault::Armor(error) => error::show("urn:encrypt:encrypt: armor: ", error),
        SealFault::Header(error) => error::show("urn:encrypt:encrypt: ", error),
        SealFault::Write(error) => error::show("urn:encrypt:encrypt: write: ", error),
        SealFault::Finish(error) => error::show("urn:encrypt:encrypt: finish: ", error),
        SealFault::ArmorFinish(error) => error::show("urn:encrypt:encrypt: armor finish: ", error),
    }
}

/// A ciphertext as it is served: armored text, never cacheable, made for these
/// recipients and no others, that each of them opens to the plaintext.
pub open spec fn serves_sealed(
    served: RepresentationView,
    recipients: Seq<Seq<char>>,
    plaintext: Seq<u8>,
) -> bool {
    &&& served == armored_view(served.bytes)
    &&& age_format::sealed_to(served.bytes, recipients, plaintext)
}

/// One of the recipients is of low order.
pub open spec fn some_low_order(recipients: Seq<Seq<char>>) -> bool {
    exists|i: int| 0 <= i < recipients.len() && age_format::low_order(#[trigger] recipients[i])
}

/// How the endpoint describes itself.
pub open spec fn description() -> DescriptionView {
    DescriptionView {
        id: "encrypt"@,
        title: "Encrypt (age / X25519)"@,
        summary: "Seal bytes to one or more recipient public keys (age X25519), emitting ASCII-armored age ciphertext. Pass the bytes as `in` (or pipe them as `content`) and the recipient key resource as `to=` (a `urn:…`/`file:` resolving to one or more `age1…` recipients, one per line — multi-recipient, so an inbox seals to every device). Open: anyone may encrypt to a public key. No keygen here."@,
        verbs: seq![Verb::Source, Verb::Meta],
        requires: seq![],
        inputs: seq![
            ArgSpecView {
                name: "in"@,
                summary: "the bytes to encrypt (positional or piped as `content`)"@,
                required: true,
                class: XSD_STRING@,
            },
            ArgSpecView {
                name: "to"@,
                summary: "recipient public-key resource: ONE IRI whose bytes list one or more age1… recipients, one per line"@,
                required: true,
                class: RDFS_RESOURCE@,
            },
        ],
        outputs: seq!["text/plain;charset=utf-8"@],
    }
}

/// `urn:encrypt:encrypt`: seals `in` to the recipients that `to` lists.
pub struct Encrypt;

impl Encrypt {
    /// The endpoint's name.
    pub fn name(&self) -> (r: &str)
        ensures
            r@ == description().id,
    {
        "encrypt"
    }

    /// Describes the endpoint.
    pub fn describe(&self) -> (r: Description)
        ensures
            r@ == description(),
    {
        let scopes: Vec<String> = Vec::new();
        let inputs: Vec<ArgSpec> = vec![
            ArgSpec::required(
                "in",
                "the bytes to encrypt (positional or piped as `content`)",
                XSD_STRING,
            ),
            ArgSpec::required(
                "to",
                "recipient public-key resource: ONE IRI whose bytes list one or more age1… recipients, one per line",
                RDFS_RESOURCE,
            ),
        ];
        let r = Description {
            id: "encrypt".to_string(),
            title: "Encrypt (age / X25519)".to_string(),
            summary: "Seal bytes to one or more recipient public keys (age X25519), emitting ASCII-armored age ciphertext. Pass the bytes as `in` (or pipe them as `content`) and the recipient key resource as `to=` (a `urn:…`/`file:` resolving to one or more `age1…` recipients, one per line — multi-recipient, so an inbox seals to every device). Open: anyone may encrypt to a public key. No keygen here.".to_string(),
            verbs: vec![Verb::Source, Verb::Meta],
            requires: scopes,
            inputs,
            outputs: vec!["text/plain;charset=utf-8".to_string()],
        };
        assert(r@.verbs == description().verbs);
        assert(r@.requires == description().requires);
        assert(r@.inputs == description().inputs);
        assert(r@.outputs == description().outputs);
        r
    }

    /// Takes a call up to the point where its key resource is to be read. No
    /// capability is asked for.
    pub fn invoke(&self, invocation: &Invocation) -> (pending: Result<Pending, Error>)
        ensures
            invocation::pending_outcome(pending) == invocation::pending_of(
                invocation.arguments@,
                "to"@,
                "urn:encrypt:encrypt"@,
            ),
    {
        invocation::await_key(&invocation.arguments, "to", "urn:encrypt:encrypt")
    }

    /// Reads the recipients from what the key resource served.
    pub fn recipients(&self, key: Vec<u8>) -> (recipients: Result<Vec<String>, Error>)
        ensures
            recipients_outcome(recipients) == recipients_of(key@),
            recipients matches Ok(recipients) ==> forall|i: int|
                0 <= i < recipients@.len() ==> age_format::age_recipient(#[trigger] recipients@[i]@)
                    == Ok::<Seq<char>, Seq<char>>(recipients@[i]@),
            recipients matches Err(error) ==> key_fault(error@),
    {
        match invocation::key_text(key, "urn:encrypt:encrypt") {
            Err(error) => Err(error),
            Ok(text) => {
                let lines = text::list_keys(text.as_str());
                match parse_lines(&lines) {
                    Err(reason) => Err(
                        Error::Endpoint(
                            "urn:encrypt:encrypt: bad age recipient: ".to_string().concat(reason),
                        ),
                    ),
                    Ok(recipients) => if recipients.len() == 0 {
                        Err(
                            Error::Endpoint(
                                "urn:encrypt:encrypt: `to` has no age recipients (expected age1…)".to_string(),
                            ),
                        )
                    } else {
                        Ok(recipients)
                    },
                }
            },
        }
    }

    /// Serves what sealing gave, or reports how it failed.
    pub fn sealed(&self, sealed: Result<Vec<u8>, SealFault>) -> (served: Result<
        Representation,
        Error,
    >)
        ensures
            match sealed {
                Ok(bytes) => repr::outcome(served) == if valid_utf8(bytes@) {
                    Ok::<RepresentationView, ErrorView>(armored_view(bytes@))
                } else {
                    Err(ErrorView::Endpoint("urn:encrypt:encrypt: armor not UTF-8"@))
                },
                Err(fault) => served matches Err(Error::Endpoint(message)) && fault_message(
                    fault,
                    message@,
                ),
            },
    {
        match sealed {
            Err(fault) => Err(Error::Endpoint(describe_fault(fault))),
            Ok(bytes) => {
                proof {
                    if valid_utf8(bytes@) {
                        decode_utf8_encode_utf8(bytes@);
                    }
                }
                match invocation::utf8_text(bytes) {
                    None => Err(
                        Error::Endpoint("urn:encrypt:encrypt: armor not UTF-8".to_string()),
                    ),
                    Some(text) => Ok(armored(text)),
                }
            },
        }
    }

    /// Seals text to recipients that can be sealed to.
    pub fn seal(&self, input: &str, recipients: &Vec<String>) -> (served: Result<
        Representation,
        Error,
    >)
        requires
            forall|i: int|
                0 <= i < recipients@.len() ==> age_format::sealable(#[trigger] recipients@[i]@),
        ensures
            match served {
                Ok(served) => recipients@.len() > 0 && serves_sealed(
                    served@,
                    text::views(recipients@),
                    encode_utf8(input@),
                ),
                Err(error) => recipients@.len() == 0 && (error matches Error::Endpoint(message)
                    && shows_encrypt_error("urn:encrypt:encrypt: "@, message@)),
            },
    {
        let sealed = age_format::seal_armored(recipients, input.as_bytes());
        proof {
            if sealed is Ok {
                age_format::lemma_ascii_is_utf8(sealed->Ok_0@);
            }
        }
        let ghost fault = sealed->Err_0;
        let served = self.sealed(sealed);
        proof {
            if served is Err {
                let message = served->Err_0->Endpoint_0@;
                assert(error::shown("urn:encrypt:encrypt: "@, &fault->Recipients_0, message));
            }
        }
        served
    }

    /// Completes a call with what its key resource served. There is no outcome
    /// where a recipient is of low order: sealing to it is not possible.
    pub fn resume(&self, pending: &Pending, key: Vec<u8>) -> (served: Option<
        Result<Representation, Error>,
    >)
        ensures
            match recipients_of(key@) {
                Err(error) => served matches Some(Err(e)) && e@ == error && key_fault(error),
                Ok(recipients) => if some_low_order(recipients) {
                    served is None
                } else {
                    served matches Some(Ok(served)) && serves_sealed(
                        served@,
                        recipients,
                        encode_utf8(pending@.input),
                    )
                },
            },
    {
        match self.recipients(key) {
            Err(error) => Some(Err(error)),
            Ok(recipients) => {
                let ghost keys = text::views(recipients@);
                let mut next: usize = 0;
                while next < recipients.len()
                    invariant
                        next <= recipients@.len(),
                        keys == text::views(recipients@),
                        recipients_of(key@) == Ok::<Seq<Seq<char>>, ErrorView>(keys),
                        forall|i: int| 0 <= i < next ==> !age_format::low_order(#[trigger] keys[i]),
                    decreases recipients@.len() - next,
                {
                    assert(keys[next as int] == recipients@[next as int]@);
                    if age_format::is_low_order(&recipients[next]) {
                        return None;
                    }
                    next = next + 1;
                }
                assert forall|i: int| 0 <= i < recipients@.len() implies age_format::sealable(
                    #[trigger] recipients@[i]@,
                ) by {
                    assert(keys[i] == recipients@[i]@);
                }
                Some(self.seal(pending.input.as_str(), &recipients))
            },
        }
    }
}

} // verus!
