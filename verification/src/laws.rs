//! What holds of the endpoints as a whole: whole calls, and the laws that they
//! obey.
use vstd::prelude::*;
use vstd::utf8::*;

use crate::age_format;
use crate::decrypt::{self, Decrypt};
use crate::encrypt::{self, Encrypt};
use crate::error::{self, Error, ErrorView};
use crate::invocation::{self, ArgView, Capability, Invocation};
use crate::repr::{self, Expiry, Representation, RepresentationView};
use crate::text;

verus! {

/// `served` is an answer of `urn:encrypt:encrypt` to a call with `arguments`,
/// where the resource that `to` names served `key`.
pub open spec fn encrypted(
    arguments: Map<Seq<char>, ArgView>,
    key: Seq<u8>,
    served: Result<RepresentationView, ErrorView>,
) -> bool {
    match invocation::pending_of(arguments, "to"@, "urn:encrypt:encrypt"@) {
        Err(error) => served == Err::<RepresentationView, ErrorView>(error),
        Ok(pending) => match encrypt::recipients_of(key) {
            Err(error) => served == Err::<RepresentationView, ErrorView>(error)
                && encrypt::key_fault(error),
            Ok(recipients) => !encrypt::some_low_order(recipients) && (served matches Ok(served)
                && encrypt::serves_sealed(served, recipients, encode_utf8(pending.input))),
        },
    }
}

/// `served` is an answer of `urn:encrypt:decrypt` to a call with `arguments`
/// under `capability`, where the resource that `key` names served `key`.
pub open spec fn decrypted(
    arguments: Map<Seq<char>, ArgView>,
    capability: Capability,
    key: Seq<u8>,
    served: Result<RepresentationView, ErrorView>,
) -> bool {
    match decrypt::invoked(arguments, capability) {
        Err(error) => served == Err::<RepresentationView, ErrorView>(error),
        Ok(pending) => match decrypt::identity_of(key) {
            Err(error) => served == Err::<RepresentationView, ErrorView>(error)
                && decrypt::key_fault(error),
            Ok(identity) => decrypt::serves_opened(served, encode_utf8(pending.input), identity),
        },
    }
}

/// Runs a call of `urn:encrypt:encrypt` from end to end, with what its key
/// resource serves at hand. There is no answer where a recipient is of low
/// order.
pub fn run_encrypt(invocation: &Invocation, key: Vec<u8>) -> (served: Option<
    Result<Representation, Error>,
>)
    ensures
        match served {
            Some(served) => encrypted(invocation.arguments@, key@, repr::outcome(served)),
            None => {
                &&& invocation::pending_of(
                    invocation.arguments@,
                    "to"@,
                    "urn:encrypt:encrypt"@,
                ) is Ok
                &&& encrypt::recipients_of(key@) matches Ok(recipients) && encrypt::some_low_order(
                    recipients,
                )
            },
        },
{
    match Encrypt.invoke(invocation) {
        Err(error) => Some(Err(error)),
        Ok(pending) => Encrypt.resume(&pending, key),
    }
}

/// Runs a call of `urn:encrypt:decrypt` from end to end, with what its key
/// resource serves at hand.
pub fn run_decrypt(invocation: &Invocation, key: Vec<u8>) -> (served: Result<
    Representation,
    Error,
>)
    ensures
        decrypted(invocation.arguments@, invocation.capability, key@, repr::outcome(served)),
{
    match Decrypt.invoke(invocation) {
        Err(error) => Err(error),
        Ok(pending) => Decrypt.resume(&pending, key),
    }
}

/// `bytes` are passed by value, as `in` or piped as `content`.
pub open spec fn passes(arguments: Map<Seq<char>, ArgView>, bytes: Seq<u8>) -> bool {
    ||| arguments.contains_key("in"@) && arguments["in"@] == ArgView::Inline(bytes)
    ||| invocation::inline_text(arguments, "in"@) is None && arguments.contains_key("content"@)
        && arguments["content"@] == ArgView::Inline(bytes)
}

/// What was sealed opens to what went in: a caller with the capability, who
/// passes the ciphertext back and names a resource with an identity whose
/// public key is any one of the recipients, is served the plaintext, byte for
/// byte.
pub proof fn round_trip(
    sealing: Map<Seq<char>, ArgView>,
    recipients: Seq<u8>,
    sealed: RepresentationView,
    opening: Map<Seq<char>, ArgView>,
    capability: Capability,
    identity: Seq<u8>,
    public: Seq<char>,
    opened: Result<RepresentationView, ErrorView>,
)
    requires
        encrypted(sealing, recipients, Ok(sealed)),
        passes(opening, sealed.bytes),
        invocation::key_iri_of(opening, "key"@, "urn:encrypt:decrypt"@) is Ok,
        capability.holds(decrypt::CAP_DECRYPT@),
        decrypt::identity_of(identity) matches Ok(text) && age_format::age_identity(text) == Ok::<
            Seq<char>,
            Seq<char>,
        >(public),
        encrypt::recipients_of(recipients)->Ok_0.contains(public),
        decrypted(opening, capability, identity, opened),
    ensures
        opened == Ok::<RepresentationView, ErrorView>(
            decrypt::plain_view(encode_utf8(invocation::input_of(sealing)->Ok_0)),
        ),
{
    let listed = encrypt::recipients_of(recipients)->Ok_0;
    let i = choose|i: int| 0 <= i < listed.len() && listed[i] == public;
    assert(listed[i] == public);
    age_format::lemma_ascii_is_utf8(sealed.bytes);
    decode_utf8_encode_utf8(sealed.bytes);
}

/// The text that is worked on is the bytes that were passed, as they are.
pub proof fn input_is_verbatim(arguments: Map<Seq<char>, ArgView>, bytes: Seq<u8>)
    requires
        passes(arguments, bytes),
        valid_utf8(bytes),
    ensures
        invocation::input_of(arguments) matches Ok(input) && encode_utf8(input) == bytes,
{
    decode_utf8_encode_utf8(bytes);
}

/// A caller without the capability is refused, whatever the arguments are, and
/// the refusal names the capability.
pub proof fn refused_without_capability(
    arguments: Map<Seq<char>, ArgView>,
    capability: Capability,
    key: Seq<u8>,
    served: Result<RepresentationView, ErrorView>,
)
    requires
        !capability.holds(decrypt::CAP_DECRYPT@),
        decrypted(arguments, capability, key, served),
    ensures
        served matches Err(ErrorView::Denied(message)) && exists|before: Seq<char>,
            after: Seq<char>| message == #[trigger] (before + decrypt::CAP_DECRYPT@ + after),
{
    assert(decrypt::refusal() == ErrorView::Denied(
        "urn:encrypt:decrypt requires the "@ + decrypt::CAP_DECRYPT@ + " capability"@,
    ));
}

/// A call without its text, or without its key resource, is refused for the
/// argument that is missing before a key is read. The text may be `content` in
/// place of `in`.
pub proof fn required_inputs_are_required(
    arguments: Map<Seq<char>, ArgView>,
    arg: Seq<char>,
    who: Seq<char>,
)
    ensures
        invocation::inline_text(arguments, "in"@) is None && invocation::inline_text(
            arguments,
            "content"@,
        ) is None ==> invocation::pending_of(arguments, arg, who) == Err::<
            invocation::PendingView,
            ErrorView,
        >(ErrorView::MissingArgument("in"@)),
        invocation::input_of(arguments) is Ok && invocation::inline_text(arguments, arg) is None
            ==> invocation::pending_of(arguments, arg, who) == Err::<
            invocation::PendingView,
            ErrorView,
        >(ErrorView::MissingArgument(arg)),
{
}

/// Text piped as `content` does what it does as `in`.
pub proof fn content_stands_in(
    arguments: Map<Seq<char>, ArgView>,
    text: ArgView,
    arg: Seq<char>,
    who: Seq<char>,
)
    requires
        arg == "to"@ || arg == "key"@,
        invocation::inline_text(arguments.insert("in"@, text), "in"@) is Some,
    ensures
        invocation::pending_of(arguments.insert("in"@, text), arg, who) == invocation::pending_of(
            arguments.remove("in"@).insert("content"@, text),
            arg,
            who,
        ),
{
    reveal_strlit("in");
    reveal_strlit("content");
    reveal_strlit("to");
    reveal_strlit("key");
    assert("in"@[0] != "to"@[0]);
    assert("in"@.len() != "content"@.len() && "in"@.len() != "key"@.len());
    assert("content"@.len() != "to"@.len() && "content"@.len() != "key"@.len());
}

/// The error for a key that is no IRI does not depend on what was passed: a
/// private key passed by value is not repeated.
pub proof fn value_is_not_echoed(
    one: Map<Seq<char>, ArgView>,
    other: Map<Seq<char>, ArgView>,
    arg: Seq<char>,
    who: Seq<char>,
)
    requires
        invocation::inline_text(one, arg) matches Some(text) && !invocation::is_iri(text),
        invocation::inline_text(other, arg) matches Some(text) && !invocation::is_iri(text),
    ensures
        invocation::key_iri_of(one, arg, who) == invocation::key_iri_of(other, arg, who),
        invocation::key_iri_of(one, arg, who) is Err,
{
}

/// The texts in which the step that fails on a ciphertext and an identity can
/// word its error, one for each locale.
pub open spec fn wordings(sealed: Seq<u8>, identity: Seq<char>) -> Set<Seq<char>> {
    if !age_format::age_header(sealed) {
        age_format::age_header_errors(sealed)
    } else if !age_format::age_unlocks(sealed, identity) {
        age_format::age_key_errors(sealed, identity)
    } else {
        age_format::age_read_errors(sealed, identity)
    }
}

/// Both messages are the same beginning and then one of `texts`.
pub open spec fn same_but_for_wording(
    one: Seq<char>,
    other: Seq<char>,
    texts: Set<Seq<char>>,
) -> bool {
    exists|prefix: Seq<char>|
        #[trigger] error::worded(prefix, texts, one) && error::worded(prefix, texts, other)
}

/// Both errors are of one kind, and their messages are the same but for which
/// of `texts` they end in.
pub open spec fn differ_in_wording(
    one: ErrorView,
    other: ErrorView,
    texts: Set<Seq<char>>,
) -> bool {
    match (one, other) {
        (ErrorView::Denied(a), ErrorView::Denied(b)) => same_but_for_wording(a, b, texts),
        (ErrorView::Endpoint(a), ErrorView::Endpoint(b)) => same_but_for_wording(a, b, texts),
        _ => false,
    }
}

/// There is but one text: it is the same in every locale.
pub open spec fn one_wording(texts: Set<Seq<char>>) -> bool {
    forall|a: Seq<char>, b: Seq<char>|
        #[trigger] texts.contains(a) && #[trigger] texts.contains(b) ==> a == b
}

/// Opening is a function of the ciphertext and the identity: two openings of
/// the same two have the same outcome, plaintext or error, but for the locale
/// in which an error is worded.
pub proof fn opening_is_deterministic(
    sealed: Seq<u8>,
    identity: Seq<char>,
    one: Result<RepresentationView, ErrorView>,
    other: Result<RepresentationView, ErrorView>,
)
    requires
        decrypt::serves_opened(one, sealed, identity),
        decrypt::serves_opened(other, sealed, identity),
    ensures
        one == other || one is Err && other is Err && differ_in_wording(
            one->Err_0,
            other->Err_0,
            wordings(sealed, identity),
        ),
        one_wording(wordings(sealed, identity)) ==> one == other,
{
    let texts = wordings(sealed, identity);
    if one is Err {
        let (a, b) = match (one->Err_0, other->Err_0) {
            (ErrorView::Denied(a), ErrorView::Denied(b)) => (a, b),
            (ErrorView::Endpoint(a), ErrorView::Endpoint(b)) => (a, b),
            _ => (Seq::empty(), Seq::empty()),
        };
        let prefix = if age_format::age_header(sealed) && age_format::age_unlocks(
            sealed,
            identity,
        ) {
            "urn:encrypt:decrypt: read: "@
        } else {
            "urn:encrypt:decrypt: "@
        };
        assert(error::worded(prefix, texts, a));
        assert(error::worded(prefix, texts, b));
    }
}

/// A call of `urn:encrypt:decrypt` has no memory: two calls with the same
/// arguments and capability, each served the same key, give the same answer,
/// plaintext or error, but for the locale in which an error of opening is
/// worded.
pub proof fn decryption_keeps_no_state(
    arguments: Map<Seq<char>, ArgView>,
    capability: Capability,
    key: Seq<u8>,
    one: Result<RepresentationView, ErrorView>,
    other: Result<RepresentationView, ErrorView>,
)
    requires
        decrypted(arguments, capability, key, one),
        decrypted(arguments, capability, key, other),
    ensures
        one == other || {
            let sealed = encode_utf8(decrypt::invoked(arguments, capability)->Ok_0.input);
            let texts = wordings(sealed, decrypt::identity_of(key)->Ok_0);
            &&& one is Err && other is Err
            &&& differ_in_wording(one->Err_0, other->Err_0, texts)
            &&& !one_wording(texts)
        },
{
    if decrypt::invoked(arguments, capability) is Ok && decrypt::identity_of(key) is Ok {
        let sealed = encode_utf8(decrypt::invoked(arguments, capability)->Ok_0.input);
        opening_is_deterministic(sealed, decrypt::identity_of(key)->Ok_0, one, other);
    }
}

/// Once a call has its key, it is denied exactly where the ciphertext is well
/// formed and the identity does not unlock it: a wrong key is a denial, and
/// nothing else is.
pub proof fn wrong_key_is_denied(
    served: Result<RepresentationView, ErrorView>,
    sealed: Seq<u8>,
    identity: Seq<char>,
)
    requires
        decrypt::serves_opened(served, sealed, identity),
    ensures
        served matches Err(ErrorView::Denied(_)) <==> age_format::age_header(sealed)
            && !age_format::age_unlocks(sealed, identity),
{
}

/// An identity that does not unlock what was sealed is denied, and no plaintext
/// is served.
pub proof fn other_identity_is_denied(
    sealing: Map<Seq<char>, ArgView>,
    recipients: Seq<u8>,
    sealed: RepresentationView,
    opening: Map<Seq<char>, ArgView>,
    capability: Capability,
    identity: Seq<u8>,
    opened: Result<RepresentationView, ErrorView>,
)
    requires
        encrypted(sealing, recipients, Ok(sealed)),
        passes(opening, sealed.bytes),
        invocation::key_iri_of(opening, "key"@, "urn:encrypt:decrypt"@) is Ok,
        capability.holds(decrypt::CAP_DECRYPT@),
        decrypt::identity_of(identity) matches Ok(text) && !age_format::age_unlocks(
            sealed.bytes,
            text,
        ),
        decrypted(opening, capability, identity, opened),
    ensures
        opened matches Err(ErrorView::Denied(_)),
{
    age_format::lemma_ascii_is_utf8(sealed.bytes);
    decode_utf8_encode_utf8(sealed.bytes);
}

/// A ciphertext is made for the recipients that the key resource lists, and for
/// no others.
pub proof fn sealed_to_the_list_alone(
    arguments: Map<Seq<char>, ArgView>,
    key: Seq<u8>,
    sealed: RepresentationView,
)
    requires
        encrypted(arguments, key, Ok(sealed)),
    ensures
        age_format::age_sealings(
            encrypt::recipients_of(key)->Ok_0,
            encode_utf8(invocation::input_of(arguments)->Ok_0),
        ).contains(sealed.bytes),
{
}

/// However often a text is sealed to the same recipients, every sealing opens
/// to the same plaintext.
pub proof fn every_sealing_opens_alike(
    sealing: Map<Seq<char>, ArgView>,
    recipients: Seq<u8>,
    one: RepresentationView,
    other: RepresentationView,
    identity: Seq<char>,
    public: Seq<char>,
)
    requires
        encrypted(sealing, recipients, Ok(one)),
        encrypted(sealing, recipients, Ok(other)),
        age_format::age_identity(identity) == Ok::<Seq<char>, Seq<char>>(public),
        encrypt::recipients_of(recipients)->Ok_0.contains(public),
    ensures
        ({
            let plaintext = encode_utf8(invocation::input_of(sealing)->Ok_0);
            &&& age_format::opens_to(one.bytes, identity, plaintext)
            &&& age_format::opens_to(other.bytes, identity, plaintext)
        }),
{
    let listed = encrypt::recipients_of(recipients)->Ok_0;
    let i = choose|i: int| 0 <= i < listed.len() && listed[i] == public;
    assert(listed[i] == public);
}

/// The errors over the arguments of a call. Of the arguments they repeat no
/// value.
pub open spec fn argument_error(error: ErrorView, arg: Seq<char>, who: Seq<char>) -> bool {
    ||| error == ErrorView::MissingArgument("in"@)
    ||| error == ErrorView::MissingArgument(arg)
    ||| error == ErrorView::InvalidArgument { name: arg, detail: invocation::not_an_iri(arg, who) }
}

/// No error of either endpoint is made from a key or from an argument's value.
/// Each is a fixed text: the capability refusal, an argument error, or a fault
/// of the key resource; or it is a fixed beginning and then the text of an
/// error that decryption or reading reported.
pub proof fn errors_carry_no_key(
    arguments: Map<Seq<char>, ArgView>,
    capability: Capability,
    key: Seq<u8>,
    error: ErrorView,
)
    ensures
        encrypted(arguments, key, Err(error)) ==> {
            ||| argument_error(error, "to"@, "urn:encrypt:encrypt"@)
            ||| encrypt::key_fault(error)
        },
        decrypted(arguments, capability, key, Err(error)) ==> {
            ||| error == decrypt::refusal()
            ||| argument_error(error, "key"@, "urn:encrypt:decrypt"@)
            ||| decrypt::key_fault(error)
            ||| error matches ErrorView::Denied(message) && decrypt::shows_decrypt_error(
                "urn:encrypt:decrypt: "@,
                message,
            )
            ||| error matches ErrorView::Endpoint(message) && decrypt::shows_decrypt_error(
                "urn:encrypt:decrypt: "@,
                message,
            )
            ||| error matches ErrorView::Endpoint(message) && decrypt::shows_io_error(
                "urn:encrypt:decrypt: read: "@,
                message,
            )
        },
{
}

/// A text that cannot stand in armor, whatever was sealed: it has a byte that
/// armor has nowhere, or a blank before a byte that follows no blank in the
/// marker lines.
pub open spec fn foreign_to_armor(text: Seq<u8>) -> bool {
    exists|j: int| 0 <= j < text.len() && foreign_at(text, j)
}

/// See [`foreign_to_armor`].
pub open spec fn foreign_at(text: Seq<u8>, j: int) -> bool {
    ||| !age_format::armor_byte(text[j]) && text[j] != ' ' as u8 && text[j] != '-' as u8
    ||| text[j] == ' ' as u8 && j + 1 < text.len() && text[j + 1] != 'A' as u8 && text[j + 1]
        != 'E' as u8 && text[j + 1] != 'F' as u8
}

/// No such text stands in a ciphertext. In particular a plaintext in ordinary
/// words does not: it has a blank before a small letter.
pub proof fn plaintext_does_not_show(
    arguments: Map<Seq<char>, ArgView>,
    key: Seq<u8>,
    sealed: RepresentationView,
    text: Seq<u8>,
    at: int,
)
    requires
        encrypted(arguments, key, Ok(sealed)),
        foreign_to_armor(text),
        0 <= at <= sealed.bytes.len() - text.len(),
    ensures
        sealed.bytes.subrange(at, at + text.len()) != text,
{
    let bytes = sealed.bytes;
    let j = choose|j: int| 0 <= j < text.len() && foreign_at(text, j);
    if bytes.subrange(at, at + text.len()) == text {
        assert(bytes[at + j] == text[j]);
        if j + 1 < text.len() {
            assert(bytes[at + j + 1] == text[j + 1]);
        }
        marker_bytes();
        let first = encode_utf8(age_format::begin_marker());
        let unix = encode_utf8(age_format::end_marker() + "\n"@);
        let last = if age_format::armored_between(bytes, first, unix) {
            unix
        } else {
            encode_utf8(age_format::end_marker() + "\r\n"@)
        };
        let p = at + j;
        let q = bytes.len() - last.len();
        if p < first.len() {
            assert(bytes[p] == first[p]);
            assert(marker_byte(first, p));
            if p + 1 < first.len() {
                assert(bytes[p + 1] == first[p + 1]);
            }
        } else if p >= q {
            assert(bytes[p] == last[p - q]);
            assert(marker_byte(last, p - q));
            if p + 1 < bytes.len() {
                assert(bytes[p + 1] == last[p + 1 - q]);
            }
        }
    }
}

/// A byte as the marker lines have it: a blank has a byte behind it that opens
/// a word of theirs.
spec fn marker_byte(marker: Seq<u8>, i: int) -> bool {
    &&& age_format::armor_byte(marker[i]) || marker[i] == ' ' as u8 || marker[i] == '-' as u8
    &&& marker[i] == ' ' as u8 ==> i + 1 < marker.len() && (marker[i + 1] == 'A' as u8 || marker[i
        + 1] == 'E' as u8 || marker[i + 1] == 'F' as u8)
}

/// What stands in the marker lines.
proof fn marker_bytes()
    ensures
        forall|i: int|
            0 <= i < encode_utf8(age_format::begin_marker()).len() ==> #[trigger] marker_byte(
                encode_utf8(age_format::begin_marker()),
                i,
            ),
        forall|i: int|
            0 <= i < encode_utf8(age_format::end_marker() + "\n"@).len()
                ==> #[trigger] marker_byte(encode_utf8(age_format::end_marker() + "\n"@), i),
        forall|i: int|
            0 <= i < encode_utf8(age_format::end_marker() + "\r\n"@).len()
                ==> #[trigger] marker_byte(encode_utf8(age_format::end_marker() + "\r\n"@), i),
{
    reveal_strlit("-----BEGIN AGE ENCRYPTED FILE-----");
    reveal_strlit("-----END AGE ENCRYPTED FILE-----");
    reveal_strlit("\n");
    reveal_strlit("\r\n");
    let begin = age_format::begin_marker();
    let unix = age_format::end_marker() + "\n"@;
    let dos = age_format::end_marker() + "\r\n"@;
    is_ascii_chars_encode_utf8(begin);
    is_ascii_chars_encode_utf8(unix);
    is_ascii_chars_encode_utf8(dos);
}

/// The one resource that a call reads is the one that its argument names.
pub proof fn reads_the_key_that_is_named(
    arguments: Map<Seq<char>, ArgView>,
    arg: Seq<char>,
    who: Seq<char>,
)
    ensures
        invocation::pending_of(arguments, arg, who) matches Ok(pending)
            ==> invocation::inline_text(arguments, arg) == Some(pending.key) && invocation::is_iri(
            pending.key,
        ),
{
}

/// A ciphertext is never cacheable, and a plaintext always is, as far as the
/// endpoint itself can tell.
pub proof fn only_plaintext_is_cacheable(
    arguments: Map<Seq<char>, ArgView>,
    capability: Capability,
    key: Seq<u8>,
    served: RepresentationView,
)
    ensures
        encrypted(arguments, key, Ok(served)) ==> served.expiry == Expiry::Always,
        decrypted(arguments, capability, key, Ok(served)) ==> served.expiry == Expiry::Never,
{
}

/// Each endpoint serves the one type that it declares.
pub proof fn serves_what_it_declares(
    arguments: Map<Seq<char>, ArgView>,
    capability: Capability,
    key: Seq<u8>,
    served: RepresentationView,
)
    ensures
        encrypted(arguments, key, Ok(served)) ==> encrypt::description().outputs
            == seq![served.repr_type.canonical()],
        decrypted(arguments, capability, key, Ok(served)) ==> decrypt::description().outputs
            == seq![served.repr_type.canonical()],
{
    let armored = encrypt::armored_type();
    assert(armored.params.drop_last() == Seq::<(Seq<char>, Seq<char>)>::empty());
    reveal_with_fuel(crate::repr::ReprTypeView::canonical, 2);
    reveal_strlit("text/plain");
    reveal_strlit(";");
    reveal_strlit("charset");
    reveal_strlit("=");
    reveal_strlit("utf-8");
    reveal_strlit("text/plain;charset=utf-8");
    assert(armored.canonical() == "text/plain;charset=utf-8"@);
}

/// What an endpoint declares that it requires is what it enforces. A call of
/// `urn:encrypt:decrypt` is denied before its key is read exactly where a
/// declared scope is not held; `urn:encrypt:encrypt` declares none and denies
/// nobody.
pub proof fn enforces_what_it_declares(
    arguments: Map<Seq<char>, ArgView>,
    capability: Capability,
)
    ensures
        decrypt::invoked(arguments, capability) matches Err(ErrorView::Denied(_)) <==> exists|
            i: int,
        |
            0 <= i < decrypt::description().requires.len() && !capability.holds(
                #[trigger] decrypt::description().requires[i],
            ),
        encrypt::description().requires.len() == 0,
        !(invocation::pending_of(arguments, "to"@, "urn:encrypt:encrypt"@) matches Err(
            ErrorView::Denied(_),
        )),
{
    assert(decrypt::description().requires[0] == decrypt::CAP_DECRYPT@);
}

/// Every argument that an endpoint declares is required: a call that lacks one
/// of them, and gives the others, is refused for that one before a key is read.
/// (`content` is no declared argument, and could stand in for `in`.)
pub proof fn requires_what_it_declares(arguments: Map<Seq<char>, ArgView>, i: int, j: int)
    requires
        i == 0 && j == 1 || i == 1 && j == 0,
        invocation::inline_text(arguments, "content"@) is None,
    ensures
        ({
            let inputs = encrypt::description().inputs;
            &&& inputs.len() == 2
            &&& inputs[i].required
            &&& invocation::inline_text(arguments, inputs[i].name) is None
                && invocation::inline_text(arguments, inputs[j].name) is Some
                ==> invocation::pending_of(arguments, "to"@, "urn:encrypt:encrypt"@) == Err::<
                invocation::PendingView,
                ErrorView,
            >(ErrorView::MissingArgument(inputs[i].name))
        }),
        ({
            let inputs = decrypt::description().inputs;
            &&& inputs.len() == 2
            &&& inputs[i].required
            &&& invocation::inline_text(arguments, inputs[i].name) is None
                && invocation::inline_text(arguments, inputs[j].name) is Some
                ==> invocation::pending_of(arguments, "key"@, "urn:encrypt:decrypt"@) == Err::<
                invocation::PendingView,
                ErrorView,
            >(ErrorView::MissingArgument(inputs[i].name))
        }),
{
}

/// A list is accepted exactly where every key in it is a recipient, and then
/// gives them all, in the order of the list.
pub proof fn every_listed_key_counts(keys: Seq<Seq<char>>)
    ensures
        encrypt::parsed(keys) is Ok <==> forall|i: int|
            0 <= i < keys.len() ==> age_format::age_recipient(#[trigger] keys[i]) is Ok,
        encrypt::parsed(keys) matches Ok(recipients) ==> {
            &&& recipients.len() == keys.len()
            &&& forall|i: int|
                0 <= i < keys.len() ==> age_format::age_recipient(#[trigger] keys[i]) == Ok::<
                    Seq<char>,
                    Seq<char>,
                >(recipients[i])
        },
    decreases keys.len(),
{
    if keys.len() > 0 {
        let before = keys.drop_last();
        every_listed_key_counts(before);
        assert forall|i: int| 0 <= i < before.len() implies before[i] == keys[i] by {}
        assert(keys.last() == keys[keys.len() - 1]);
        if encrypt::parsed(keys) is Ok {
            assert forall|i: int| 0 <= i < keys.len() implies age_format::age_recipient(
                #[trigger] keys[i],
            ) == Ok::<Seq<char>, Seq<char>>(encrypt::parsed(keys)->Ok_0[i]) by {
                if i < before.len() {
                    assert(before[i] == keys[i]);
                }
            }
        } else if forall|i: int|
            0 <= i < keys.len() ==> age_format::age_recipient(#[trigger] keys[i]) is Ok {
            assert forall|i: int| 0 <= i < before.len() implies age_format::age_recipient(
                #[trigger] before[i],
            ) is Ok by {
                assert(before[i] == keys[i]);
            }
        }
    }
}

/// White space around an identity in its resource does not change what the
/// resource holds.
pub proof fn identity_may_be_padded(before: Seq<char>, s: Seq<char>, after: Seq<char>)
    requires
        text::blank(before),
        text::blank(after),
    ensures
        decrypt::identity_of(encode_utf8(before + s + after)) == decrypt::identity_of(
            encode_utf8(s),
        ),
{
    text::trim_ignores_blanks(before, s, after);
    encode_utf8_valid_utf8(before + s + after);
    encode_utf8_valid_utf8(s);
    encode_utf8_decode_utf8(before + s + after);
    encode_utf8_decode_utf8(s);
}

/// White space around the identity never matters: two calls that differ in it
/// alone give the same answer, plaintext or error, but for the locale in which
/// an error of opening is worded; and the answers that one may be given are
/// those that the other may.
pub proof fn padding_never_matters(
    arguments: Map<Seq<char>, ArgView>,
    capability: Capability,
    before: Seq<char>,
    s: Seq<char>,
    after: Seq<char>,
    padded: Result<RepresentationView, ErrorView>,
    bare: Result<RepresentationView, ErrorView>,
)
    requires
        text::blank(before),
        text::blank(after),
        decrypted(arguments, capability, encode_utf8(before + s + after), padded),
        decrypted(arguments, capability, encode_utf8(s), bare),
    ensures
        decrypted(arguments, capability, encode_utf8(s), padded),
        decrypted(arguments, capability, encode_utf8(before + s + after), bare),
        padded == bare || {
            let sealed = encode_utf8(decrypt::invoked(arguments, capability)->Ok_0.input);
            let texts = wordings(sealed, decrypt::identity_of(encode_utf8(s))->Ok_0);
            &&& padded is Err && bare is Err
            &&& differ_in_wording(padded->Err_0, bare->Err_0, texts)
            &&& !one_wording(texts)
        },
{
    identity_may_be_padded(before, s, after);
    decryption_keeps_no_state(arguments, capability, encode_utf8(s), padded, bare);
}

} // verus!
