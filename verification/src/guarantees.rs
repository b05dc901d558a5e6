//! What each function does, said of its arguments and its results.
//!
//! Each law speaks of calls: `call_ensures(f, arguments, result)` holds where
//! `f` may give `result` on `arguments`. What follows is then said of the
//! fields of the values that went in and came out, of the literal texts, and of
//! what the `age` crate and the kernel's types are named to give.
use vstd::prelude::*;
use vstd::utf8::*;

use crate::age_format::{self, OpenFault, SealFault};
use crate::decrypt::{self, Decrypt};
use crate::describe::{ArgSpec, Description, Verb};
use crate::encrypt::{self, Encrypt};
use crate::error::{self, Error};
use crate::invocation::{self, Arg, Arguments, Capability, Invocation, Pending};
use crate::laws;
use crate::repr::{self, Expiry, Representation};
use crate::text;
use crate::{Binding, Endpoint};

verus! {

// Text.

/// The white space of Unicode, character by character.
pub open spec fn is_blank(c: char) -> bool {
    ||| c == '\t' || c == '\n' || c == '\u{b}' || c == '\u{c}' || c == '\r'
    ||| c == ' ' || c == '\u{85}' || c == '\u{a0}' || c == '\u{1680}'
    ||| '\u{2000}' <= c <= '\u{200a}'
    ||| c == '\u{2028}' || c == '\u{2029}' || c == '\u{202f}' || c == '\u{205f}'
    ||| c == '\u{3000}'
}

/// White space is recognised, and nothing else is.
pub proof fn white_space_is_recognised(c: char, r: bool)
    requires
        call_ensures(text::is_white_space, (c,), r),
    ensures
        r <==> is_blank(c),
{
}

proof fn lemma_blank(c: char)
    ensures
        text::white_space(c) == is_blank(c),
{
}

/// What is left of a text when trimmed is what stands from its first character
/// that is no white space to its last: nothing but white space stands before
/// `from` and behind `to`, and the text between them neither begins nor ends
/// with any.
pub proof fn trim_keeps_what_is_between_blanks(s: &str, from: int, to: int, r: String)
    requires
        call_ensures(text::trim, (s,), r),
        0 <= from <= to <= s@.len(),
        forall|i: int| 0 <= i < from ==> is_blank(#[trigger] s@[i]),
        forall|i: int| to <= i < s@.len() ==> is_blank(#[trigger] s@[i]),
        from < to ==> !is_blank(s@[from]) && !is_blank(s@[to - 1]),
    ensures
        r@ == s@.subrange(from, to),
{
    let before = s@.subrange(0, from);
    let middle = s@.subrange(from, to);
    let after = s@.subrange(to, s@.len() as int);
    assert(before + middle + after == s@);
    text::trim_ignores_blanks(before, middle, after);
    if from < to {
        assert(middle.first() == s@[from]);
        assert(middle.last() == s@[to - 1]);
        lemma_blank(s@[from]);
        lemma_blank(s@[to - 1]);
    }
    assert(text::trimmed_start(middle) == middle);
    assert(text::trimmed_end(middle) == middle);
}

/// The strings say, one by one, what the sequences do.
pub open spec fn say(strings: Seq<String>, texts: Seq<Seq<char>>) -> bool {
    &&& strings.len() == texts.len()
    &&& forall|i: int| 0 <= i < texts.len() ==> (#[trigger] strings[i])@ == texts[i]
}

/// A line above a list adds its trimmed text in front of the keys listed, unless
/// it is blank or its first character is `#`: then it adds nothing.
pub proof fn a_line_adds_its_key(
    line: &str,
    key: String,
    below: &str,
    listed: Vec<String>,
    whole: &str,
    all: Vec<String>,
)
    requires
        !line@.contains('\n'),
        whole@ == line@ + seq!['\n'] + below@,
        call_ensures(text::trim, (line,), key),
        call_ensures(text::list_keys, (below,), listed),
        call_ensures(text::list_keys, (whole,), all),
    ensures
        key@.len() == 0 || key@[0] == '#' ==> {
            &&& all@.len() == listed@.len()
            &&& forall|i: int| 0 <= i < listed@.len() ==> (#[trigger] all@[i])@ == listed@[i]@
        },
        key@.len() > 0 && key@[0] != '#' ==> {
            &&& all@.len() == listed@.len() + 1
            &&& all@[0]@ == key@
            &&& forall|i: int| 0 <= i < listed@.len() ==> (#[trigger] listed@[i])@ == all@[i + 1]@
        },
{
    assert(line@.push('\n') + below@ == whole@);
    text::key_lists_join(line@, below@);
    text::one_line(line@);
    text::lemma_listed_push(Seq::empty(), line@);
    assert(Seq::<Seq<char>>::empty().push(line@) == seq![line@]);
    reveal(Seq::filter);
    assert(text::listed(Seq::empty()) == Seq::<Seq<char>>::empty());
    let keys = text::views(all@);
    let rest = text::views(listed@);
    if key@.len() == 0 || key@[0] == '#' {
        assert(keys == rest);
        assert forall|i: int| 0 <= i < listed@.len() implies (#[trigger] all@[i])@
            == listed@[i]@ by {
            assert(keys[i] == rest[i]);
        }
    } else {
        assert(keys == seq![key@] + rest);
        assert(keys[0] == key@);
        assert forall|i: int| 0 <= i < listed@.len() implies (#[trigger] listed@[i])@
            == all@[i + 1]@ by {
            assert(keys[i + 1] == rest[i]);
        }
    }
}

/// A text of one line lists its trimmed text, unless it is blank or its first
/// character is `#`.
pub proof fn one_line_lists_one_key(line: &str, key: String, listed: Vec<String>)
    requires
        !line@.contains('\n'),
        call_ensures(text::trim, (line,), key),
        call_ensures(text::list_keys, (line,), listed),
    ensures
        key@.len() == 0 || key@[0] == '#' ==> listed@.len() == 0,
        key@.len() > 0 && key@[0] != '#' ==> listed@.len() == 1 && listed@[0]@ == key@,
{
    text::one_line(line@);
    text::lemma_listed_push(Seq::empty(), line@);
    assert(Seq::<Seq<char>>::empty().push(line@) == seq![line@]);
    reveal(Seq::filter);
    assert(text::listed(Seq::empty()) == Seq::<Seq<char>>::empty());
    let keys = text::views(listed@);
    assert(keys.len() == listed@.len());
    if key@.len() > 0 && key@[0] != '#' {
        assert(keys == seq![key@]);
        assert(keys[0] == listed@[0]@);
    }
}

// Arguments.

/// There are no arguments at first.
pub proof fn new_arguments_hold_nothing(arguments: Arguments, name: &str, text: Option<String>)
    requires
        call_ensures(Arguments::new, (), arguments),
        call_ensures(Arguments::inline_str, (&arguments, name), text),
    ensures
        text is None,
{
}

/// An argument reads back as what was passed, where that is text by value, and
/// as nothing where it is not.
pub proof fn argument_reads_back(
    before: Arguments,
    name: &str,
    arg: Arg,
    after: Arguments,
    text: Option<String>,
)
    requires
        call_ensures(Arguments::with_arg, (before, name, arg), after),
        call_ensures(Arguments::inline_str, (&after, name), text),
    ensures
        match arg {
            Arg::Inline(bytes) => if valid_utf8(bytes@) {
                text matches Some(text) && encode_utf8(text@) == bytes@ && text@ == decode_utf8(
                    bytes@,
                )
            } else {
                text is None
            },
            Arg::Reference(_) => text is None,
        },
{
    if let Arg::Inline(bytes) = arg {
        if valid_utf8(bytes@) {
            decode_utf8_encode_utf8(bytes@);
        }
    }
}

/// An argument leaves those of other names as they were.
pub proof fn other_arguments_stay(
    before: Arguments,
    name: &str,
    arg: Arg,
    after: Arguments,
    other: &str,
    was: Option<String>,
    is_now: Option<String>,
)
    requires
        other@ != name@,
        call_ensures(Arguments::with_arg, (before, name, arg), after),
        call_ensures(Arguments::inline_str, (&before, other), was),
        call_ensures(Arguments::inline_str, (&after, other), is_now),
    ensures
        was is Some <==> is_now is Some,
        was matches Some(text) ==> is_now->Some_0@ == text@,
{
}

/// The text that is worked on is that of `in`; or that of `content` where there
/// is none; or else `in` is missing.
pub proof fn input_is_in_or_content(
    arguments: Arguments,
    given: Option<String>,
    piped: Option<String>,
    input: Result<String, Error>,
)
    requires
        call_ensures(Arguments::inline_str, (&arguments, "in"), given),
        call_ensures(Arguments::inline_str, (&arguments, "content"), piped),
        call_ensures(invocation::read_input, (&arguments,), input),
    ensures
        given matches Some(text) ==> (input matches Ok(input) && input@ == text@),
        given is None && piped is Some ==> (input matches Ok(input) && input@ == piped->Some_0@),
        given is None && piped is None ==> (input matches Err(Error::MissingArgument(name))
            && name@ == "in"@),
{
}

/// The detail with which a key that is no IRI is refused, whatever it is.
pub open spec fn by_value_refusal(arg: Seq<char>, who: Seq<char>) -> Seq<char> {
    who + ": `"@ + arg
        + "` must be an IRI naming a key resource (a `urn:file:`, a `urn:secret:*`); the key itself is never passed by value"@
}

/// A key resource is found where the argument is an IRI, and is the one that it
/// names.
pub proof fn key_is_the_iri_that_is_named(
    arguments: Arguments,
    arg: &str,
    who: &str,
    named: Option<String>,
    iri: Result<String, Error>,
)
    requires
        call_ensures(Arguments::inline_str, (&arguments, arg), named),
        call_ensures(invocation::resolve_key, (&arguments, arg, who), iri),
    ensures
        match named {
            None => iri matches Err(Error::MissingArgument(name)) && name@ == arg@,
            Some(named) => if named@.contains(':') && invocation::parses_as_iri(named@) {
                iri matches Ok(iri) && iri@ == named@
            } else {
                iri matches Err(Error::InvalidArgument { name, detail }) && name@ == arg@
                    && detail@ == by_value_refusal(arg@, who@)
            },
        },
{
}

/// A key resource that serves UTF-8 is taken as that text, and any other is
/// refused.
pub proof fn key_resource_is_text(bytes: Vec<u8>, who: &str, text: Result<String, Error>)
    requires
        call_ensures(invocation::key_text, (bytes, who), text),
    ensures
        valid_utf8(bytes@) ==> (text matches Ok(text) && encode_utf8(text@) == bytes@ && text@
            == decode_utf8(bytes@)),
        !valid_utf8(bytes@) ==> (text matches Err(Error::Endpoint(message)) && message@ == who@
            + ": key resource is not UTF-8 text"@),
{
    if valid_utf8(bytes@) {
        decode_utf8_encode_utf8(bytes@);
    }
}

// Calls before a key is read.

/// How a call goes up to the read of its key, given the texts of `in`, of
/// `content` and of the argument `arg` that names the key. It waits with its
/// input for the resource that `arg` names, or is refused for the first thing
/// that is missing.
pub open spec fn waits(
    given: Option<String>,
    piped: Option<String>,
    named: Option<String>,
    arg: Seq<char>,
    who: Seq<char>,
    pending: Result<Pending, Error>,
) -> bool {
    if given is None && piped is None {
        pending matches Err(Error::MissingArgument(name)) && name@ == "in"@
    } else if named is None {
        pending matches Err(Error::MissingArgument(name)) && name@ == arg
    } else if !(named->Some_0@.contains(':') && invocation::parses_as_iri(named->Some_0@)) {
        pending matches Err(Error::InvalidArgument { name, detail }) && name@ == arg && detail@
            == by_value_refusal(arg, who)
    } else {
        pending matches Ok(pending) && {
            &&& pending.key@ == named->Some_0@
            &&& given matches Some(text) ==> pending.input@ == text@
            &&& given is None ==> pending.input@ == piped->Some_0@
        }
    }
}

/// A call of `urn:encrypt:encrypt` waits for the resource that `to` names,
/// whoever makes it.
pub proof fn encrypt_waits_for_to(
    endpoint: Encrypt,
    call: Invocation,
    given: Option<String>,
    piped: Option<String>,
    named: Option<String>,
    pending: Result<Pending, Error>,
)
    requires
        call_ensures(Arguments::inline_str, (&call.arguments, "in"), given),
        call_ensures(Arguments::inline_str, (&call.arguments, "content"), piped),
        call_ensures(Arguments::inline_str, (&call.arguments, "to"), named),
        call_ensures(Encrypt::invoke, (&endpoint, &call), pending),
    ensures
        waits(given, piped, named, "to"@, "urn:encrypt:encrypt"@, pending),
{
}

/// The caller holds `urn:cap:decrypt`.
pub open spec fn may_decrypt(capability: Capability) -> bool {
    match capability {
        Capability::Root => true,
        Capability::Scoped(held) => exists|i: int|
            0 <= i < held@.len() && (#[trigger] held@[i])@ == "urn:cap:decrypt"@,
    }
}

/// The refusal of a caller who does not.
pub open spec fn is_refusal(error: Error) -> bool {
    error matches Error::Denied(message) && message@ == "urn:encrypt:decrypt requires the "@
        + "urn:cap:decrypt"@ + " capability"@
}

/// A call of `urn:encrypt:decrypt` is refused for want of the capability,
/// whatever its arguments are; with it, the call waits for the resource that
/// `key` names.
pub proof fn decrypt_waits_for_key(
    endpoint: Decrypt,
    call: Invocation,
    given: Option<String>,
    piped: Option<String>,
    named: Option<String>,
    pending: Result<Pending, Error>,
)
    requires
        call_ensures(Arguments::inline_str, (&call.arguments, "in"), given),
        call_ensures(Arguments::inline_str, (&call.arguments, "content"), piped),
        call_ensures(Arguments::inline_str, (&call.arguments, "key"), named),
        call_ensures(Decrypt::invoke, (&endpoint, &call), pending),
    ensures
        !may_decrypt(call.capability) ==> (pending matches Err(error) && is_refusal(error)),
        may_decrypt(call.capability) ==> waits(
            given,
            piped,
            named,
            "key"@,
            "urn:encrypt:decrypt"@,
            pending,
        ),
{
    assert(decrypt::CAP_DECRYPT@ == "urn:cap:decrypt"@);
    if let Capability::Scoped(held) = call.capability {
        let views = text::views(held@);
        if may_decrypt(call.capability) {
            let i = choose|i: int|
                0 <= i < held@.len() && (#[trigger] held@[i])@ == "urn:cap:decrypt"@;
            assert(views[i] == held@[i]@);
            assert(views.contains("urn:cap:decrypt"@));
        } else if views.contains("urn:cap:decrypt"@) {
            let i = choose|i: int| 0 <= i < views.len() && views[i] == "urn:cap:decrypt"@;
            assert(held@[i]@ == views[i]);
        }
    }
}

// Errors.

/// The two errors are of one kind and say the same.
pub open spec fn same_error(one: Error, other: Error) -> bool {
    match (one, other) {
        (Error::MissingArgument(a), Error::MissingArgument(b)) => a@ == b@,
        (
            Error::InvalidArgument { name: a, detail: c },
            Error::InvalidArgument { name: b, detail: d },
        ) => a@ == b@ && c@ == d@,
        (Error::Endpoint(a), Error::Endpoint(b)) => a@ == b@,
        (Error::Denied(a), Error::Denied(b)) => a@ == b@,
        _ => false,
    }
}

/// The message is `prefix` and then what `error` displays.
pub open spec fn says<E: core::fmt::Display>(
    prefix: Seq<char>,
    error: &E,
    message: Seq<char>,
) -> bool {
    exists|text: String|
        #[trigger] vstd::string::to_string_from_display_ensures::<E>(error, text) && message
            == prefix + text@
}

/// An error of one of these texts, and of no other.
pub open spec fn is_endpoint_error(error: Error, message: Seq<char>) -> bool {
    error matches Error::Endpoint(text) && text@ == message
}

// Recipients.

/// The keys that a key resource lists are the recipients, all of them and in
/// order: as many as the listed lines, each what its line parses to.
pub proof fn every_line_is_a_recipient(
    endpoint: Encrypt,
    key: Vec<u8>,
    text: &str,
    lines: Vec<String>,
    recipients: Result<Vec<String>, Error>,
)
    requires
        valid_utf8(key@),
        text@ == decode_utf8(key@),
        call_ensures(text::list_keys, (text,), lines),
        lines@.len() > 0,
        forall|i: int|
            0 <= i < lines@.len() ==> age_format::age_recipient((#[trigger] lines@[i])@) is Ok,
        call_ensures(Encrypt::recipients, (&endpoint, key), recipients),
    ensures
        recipients matches Ok(recipients) && {
            &&& recipients@.len() == lines@.len()
            &&& forall|i: int|
                0 <= i < lines@.len() ==> age_format::age_recipient((#[trigger] lines@[i])@)
                    == Ok::<Seq<char>, Seq<char>>(recipients@[i]@)
        },
{
    let keys = text::views(lines@);
    assert forall|i: int| 0 <= i < keys.len() implies age_format::age_recipient(
        #[trigger] keys[i],
    ) is Ok by {
        assert(keys[i] == lines@[i]@);
    }
    laws::every_listed_key_counts(keys);
    let found = recipients->Ok_0;
    assert(text::views(found@).len() == found@.len());
    assert forall|i: int| 0 <= i < lines@.len() implies age_format::age_recipient(
        (#[trigger] lines@[i])@,
    ) == Ok::<Seq<char>, Seq<char>>(found@[i]@) by {
        assert(keys[i] == lines@[i]@);
        assert(text::views(found@)[i] == found@[i]@);
    }
}

/// The first line that parses to no recipient is why a list is refused.
pub proof fn the_first_bad_line_is_reported(
    endpoint: Encrypt,
    key: Vec<u8>,
    text: &str,
    lines: Vec<String>,
    bad: int,
    reason: Seq<char>,
    recipients: Result<Vec<String>, Error>,
)
    requires
        valid_utf8(key@),
        text@ == decode_utf8(key@),
        call_ensures(text::list_keys, (text,), lines),
        0 <= bad < lines@.len(),
        forall|i: int|
            0 <= i < bad ==> age_format::age_recipient((#[trigger] lines@[i])@) is Ok,
        age_format::age_recipient(lines@[bad]@) == Err::<Seq<char>, Seq<char>>(reason),
        call_ensures(Encrypt::recipients, (&endpoint, key), recipients),
    ensures
        recipients matches Err(error) && is_endpoint_error(
            error,
            "urn:encrypt:encrypt: bad age recipient: "@ + reason,
        ),
{
    let keys = text::views(lines@);
    let good = keys.take(bad);
    assert forall|i: int| 0 <= i < good.len() implies age_format::age_recipient(
        #[trigger] good[i],
    ) is Ok by {
        assert(good[i] == lines@[i]@);
    }
    laws::every_listed_key_counts(good);
    assert(keys.take(bad + 1).drop_last() == good);
    assert(keys.take(bad + 1).last() == lines@[bad]@);
    encrypt::lemma_refusal_stays(keys, bad + 1);
}

/// A resource that lists no key, or is no text, is refused as such.
pub proof fn an_empty_list_is_refused(
    endpoint: Encrypt,
    key: Vec<u8>,
    text: &str,
    lines: Vec<String>,
    recipients: Result<Vec<String>, Error>,
)
    requires
        call_ensures(Encrypt::recipients, (&endpoint, key), recipients),
    ensures
        valid_utf8(key@) && text@ == decode_utf8(key@) && call_ensures(
            text::list_keys,
            (text,),
            lines,
        ) && lines@.len() == 0 ==> (recipients matches Err(error) && is_endpoint_error(
            error,
            "urn:encrypt:encrypt: `to` has no age recipients (expected age1…)"@,
        )),
        !valid_utf8(key@) ==> (recipients matches Err(error) && is_endpoint_error(
            error,
            "urn:encrypt:encrypt"@ + ": key resource is not UTF-8 text"@,
        )),
{
    if call_ensures(text::list_keys, (text,), lines) && lines@.len() == 0 {
        assert(text::views(lines@) == Seq::<Seq<char>>::empty());
    }
}

/// No refusal of a list repeats any of it: there are five.
pub proof fn list_refusals_are_fixed(
    endpoint: Encrypt,
    key: Vec<u8>,
    recipients: Result<Vec<String>, Error>,
)
    requires
        call_ensures(Encrypt::recipients, (&endpoint, key), recipients),
    ensures
        recipients matches Err(error) ==> {
            let bad = "urn:encrypt:encrypt: bad age recipient: "@;
            ||| is_endpoint_error(error, "urn:encrypt:encrypt"@ + ": key resource is not UTF-8 text"@)
            ||| is_endpoint_error(error, bad + "invalid Bech32 encoding"@)
            ||| is_endpoint_error(error, bad + "incorrect HRP"@)
            ||| is_endpoint_error(error, bad + "incorrect pubkey length"@)
            ||| is_endpoint_error(
                error,
                "urn:encrypt:encrypt: `to` has no age recipients (expected age1…)"@,
            )
        },
{
}

/// The keys that cannot be sealed to: the encodings of the points of low order.
pub open spec fn unsealable(key: Seq<char>) -> bool {
    ||| key == "age1qqqqqqqqqqqqqqqqqqqqqqqqqqqqqqqqqqqqqqqqqqqqqqqqqqqq5cu47z"@
    ||| key == "age1qyqqqqqqqqqqqqqqqqqqqqqqqqqqqqqqqqqqqqqqqqqqqqqqqqqqj7vrya"@
    ||| key == "age1ur4h5lpmgxu2u9jku0a0r87ydtdqnr0tnsetrlvxvgz3vh6fhqqqzyt4v9"@
    ||| key == "age1t7wft09r2zxzfvwsk92eeql0tvzyghxytqwgapkcyf8dm5ylz9ts6wm9s8"@
    ||| key == "age1anlllllllllllllllllllllllllllllllllllllllllllllllals4n2t7m"@
    ||| key == "age1ahlllllllllllllllllllllllllllllllllllllllllllllllalsn46ayy"@
    ||| key == "age1amlllllllllllllllllllllllllllllllllllllllllllllllalselrwrv"@
    ||| key == "age1qqqqqqqqqqqqqqqqqqqqqqqqqqqqqqqqqqqqqqqqqqqqqqqqqzqqsuwj9m"@
    ||| key == "age1qyqqqqqqqqqqqqqqqqqqqqqqqqqqqqqqqqqqqqqqqqqqqqqqqzqqk67yly"@
    ||| key == "age1ur4h5lpmgxu2u9jku0a0r87ydtdqnr0tnsetrlvxvgz3vh6fhzqqxqejhu"@
    ||| key == "age1t7wft09r2zxzfvwsk92eeql0tvzyghxytqwgapkcyf8dm5ylz8ts72fzt7"@
    ||| key == "age1anllllllllllllllllllllllllllllllllllllllllllllllllls3hcv9z"@
    ||| key == "age1ahlllllllllllllllllllllllllllllllllllllllllllllllllsh3g6la"@
    ||| key == "age1amlllllllllllllllllllllllllllllllllllllllllllllllllsam3fc4"@
}

/// Those keys are told apart from all others.
pub proof fn low_order_is_recognised(key: String, r: bool)
    requires
        call_ensures(age_format::is_low_order, (&key,), r),
    ensures
        r <==> unsealable(key@),
{
}

// Ciphertexts.

/// Armored text as it is served: as text, and never cacheable.
pub open spec fn is_armored_text(served: Representation, bytes: Seq<u8>) -> bool {
    &&& served.bytes@ == bytes
    &&& served.repr_type.media_type@ == "text/plain"@
    &&& served.repr_type.params@.len() == 1
    &&& served.repr_type.params@[0].0@ == "charset"@
    &&& served.repr_type.params@[0].1@ == "utf-8"@
    &&& served.expiry == Expiry::Always
}

/// `served` is a sealing of the text to the recipients, and to no one else,
/// which each of them opens to that text.
pub open spec fn is_sealing(
    served: Representation,
    recipients: Seq<String>,
    input: Seq<char>,
) -> bool {
    &&& is_armored_text(served, served.bytes@)
    &&& forall|keys: Seq<Seq<char>>| #[trigger] say(recipients, keys) ==> age_format::age_sealings(
        keys,
        encode_utf8(input),
    ).contains(served.bytes@)
    &&& age_format::age_header(served.bytes@)
    &&& forall|identity: Seq<char>, i: int|
        #![trigger age_format::age_identity(identity), recipients[i]]
        0 <= i < recipients.len() && age_format::age_identity(identity) == Ok::<
            Seq<char>,
            Seq<char>,
        >(recipients[i]@) ==> {
            &&& age_format::age_unlocks(served.bytes@, identity)
            &&& age_format::age_payload(served.bytes@, identity) == Some(encode_utf8(input))
        }
}

/// What holds of a sealing over views holds of it over strings.
proof fn lemma_is_sealing(served: Representation, recipients: Seq<String>, input: Seq<char>)
    requires
        encrypt::serves_sealed(served@, text::views(recipients), encode_utf8(input)),
    ensures
        is_sealing(served, recipients, input),
{
    let views = text::views(recipients);
    assert(served@.repr_type.params.len() == served.repr_type.params@.len());
    assert(served@.repr_type.params == encrypt::armored_type().params);
    assert(served@.repr_type.params[0] == (
        served.repr_type.params@[0].0@,
        served.repr_type.params@[0].1@,
    ));
    assert forall|keys: Seq<Seq<char>>| #[trigger] say(
        recipients,
        keys,
    ) implies age_format::age_sealings(keys, encode_utf8(input)).contains(served.bytes@) by {
        assert(keys == views);
    }
    assert forall|identity: Seq<char>, i: int|
        #![trigger age_format::age_identity(identity), recipients[i]]
        0 <= i < recipients.len() && age_format::age_identity(identity) == Ok::<
            Seq<char>,
            Seq<char>,
        >(recipients[i]@) implies {
        &&& age_format::age_unlocks(served.bytes@, identity)
        &&& age_format::age_payload(served.bytes@, identity) == Some(encode_utf8(input))
    } by {
        assert(views[i] == recipients[i]@);
    }
}

/// Sealing to recipients gives such a sealing; to nobody, an error in the words
/// of `age`.
pub proof fn seal_seals_to_its_recipients(
    endpoint: Encrypt,
    input: &str,
    recipients: Vec<String>,
    served: Result<Representation, Error>,
)
    requires
        call_ensures(Encrypt::seal, (&endpoint, input, &recipients), served),
    ensures
        recipients@.len() > 0 ==> (served matches Ok(served) && is_sealing(
            served,
            recipients@,
            input@,
        )),
        recipients@.len() == 0 ==> (served matches Err(Error::Endpoint(message)) && exists|
            e: age::EncryptError,
        | #[trigger] says("urn:encrypt:encrypt: "@, &e, message@)),
{
    if recipients@.len() > 0 {
        lemma_is_sealing(served->Ok_0, recipients@, input@);
    } else {
        let message = served->Err_0->Endpoint_0@;
        let e = choose|e: age::EncryptError|
            #[trigger] error::shown("urn:encrypt:encrypt: "@, &e, message);
        assert(says("urn:encrypt:encrypt: "@, &e, message));
    }
}

/// What sealing gives is served as it is; each fault is reported in its words,
/// behind what tells the step.
pub proof fn sealed_is_served_or_reported(
    endpoint: Encrypt,
    sealed: Result<Vec<u8>, SealFault>,
    served: Result<Representation, Error>,
)
    requires
        call_ensures(Encrypt::sealed, (&endpoint, sealed), served),
    ensures
        match sealed {
            Ok(bytes) => if valid_utf8(bytes@) {
                served matches Ok(served) && is_armored_text(served, bytes@)
            } else {
                served matches Err(error) && is_endpoint_error(
                    error,
                    "urn:encrypt:encrypt: armor not UTF-8"@,
                )
            },
            Err(fault) => served matches Err(Error::Endpoint(message)) && match fault {
                SealFault::Recipients(e) => says("urn:encrypt:encrypt: "@, &e, message@),
                SealFault::Armor(e) => says("urn:encrypt:encrypt: armor: "@, &e, message@),
                SealFault::Header(e) => says("urn:encrypt:encrypt: "@, &e, message@),
                SealFault::Write(e) => says("urn:encrypt:encrypt: write: "@, &e, message@),
                SealFault::Finish(e) => says("urn:encrypt:encrypt: finish: "@, &e, message@),
                SealFault::ArmorFinish(e) => says(
                    "urn:encrypt:encrypt: armor finish: "@,
                    &e,
                    message@,
                ),
            },
        },
{
    if let Ok(bytes) = sealed {
        if valid_utf8(bytes@) {
            let served = served->Ok_0;
            assert(served@.repr_type.params.len() == served.repr_type.params@.len());
            assert(served@.repr_type.params == encrypt::armored_type().params);
            assert(served@.repr_type.params[0] == (
                served.repr_type.params@[0].0@,
                served.repr_type.params@[0].1@,
            ));
        }
    }
}

/// How a call of `urn:encrypt:encrypt` ends, given the recipients that its key
/// resource holds: with the error that the resource draws; with nothing, where
/// one of them cannot be sealed to; or else with a sealing to all of them.
pub open spec fn ends_sealed(
    recipients: Result<Vec<String>, Error>,
    input: Seq<char>,
    served: Option<Result<Representation, Error>>,
) -> bool {
    match recipients {
        Err(error) => served matches Some(Err(reported)) && same_error(reported, error),
        Ok(recipients) => if exists|i: int|
            0 <= i < recipients@.len() && unsealable((#[trigger] recipients@[i])@) {
            served is None
        } else {
            served matches Some(Ok(served)) && is_sealing(served, recipients@, input)
        },
    }
}

/// Sealing is owed wherever the recipients allow it, and goes to all of them.
pub proof fn a_call_seals_to_its_list(
    endpoint: Encrypt,
    pending: Pending,
    key: Vec<u8>,
    recipients: Result<Vec<String>, Error>,
    served: Option<Result<Representation, Error>>,
)
    requires
        call_ensures(Encrypt::recipients, (&endpoint, key), recipients),
        call_ensures(Encrypt::resume, (&endpoint, &pending, key), served),
    ensures
        ends_sealed(recipients, pending.input@, served),
{
    if let Ok(found) = recipients {
        lemma_low_order(found@);
        if !encrypt::some_low_order(text::views(found@)) {
            lemma_is_sealing(served->Some_0->Ok_0, found@, pending.input@);
        }
    }
}

proof fn lemma_low_order(recipients: Seq<String>)
    ensures
        encrypt::some_low_order(text::views(recipients)) <==> exists|i: int|
            0 <= i < recipients.len() && unsealable((#[trigger] recipients[i])@),
{
    let views = text::views(recipients);
    assert forall|i: int| 0 <= i < recipients.len() implies #[trigger] views[i]
        == recipients[i]@ by {}
    if encrypt::some_low_order(views) {
        let i = choose|i: int| 0 <= i < views.len() && age_format::low_order(#[trigger] views[i]);
        assert(unsealable(recipients[i]@));
    }
    if exists|i: int| 0 <= i < recipients.len() && unsealable((#[trigger] recipients[i])@) {
        let i = choose|i: int| 0 <= i < recipients.len() && unsealable((#[trigger] recipients[i])@);
        assert(age_format::low_order(views[i]));
    }
}

/// Any identity whose public key a line of the key resource lists opens the
/// ciphertext to the text that was sealed; and where every line lists a key that
/// can be sealed to, there is a ciphertext.
pub proof fn every_listed_key_opens(
    endpoint: Encrypt,
    pending: Pending,
    key: Vec<u8>,
    text: &str,
    lines: Vec<String>,
    keys: Seq<Seq<char>>,
    recipients: Result<Vec<String>, Error>,
    served: Option<Result<Representation, Error>>,
)
    requires
        valid_utf8(key@),
        text@ == decode_utf8(key@),
        call_ensures(text::list_keys, (text,), lines),
        lines@.len() > 0,
        keys.len() == lines@.len(),
        forall|i: int|
            0 <= i < keys.len() ==> age_format::age_recipient((#[trigger] lines@[i])@) == Ok::<
                Seq<char>,
                Seq<char>,
            >(keys[i]),
        forall|i: int| 0 <= i < keys.len() ==> !unsealable(#[trigger] keys[i]),
        call_ensures(Encrypt::recipients, (&endpoint, key), recipients),
        call_ensures(Encrypt::resume, (&endpoint, &pending, key), served),
    ensures
        served matches Some(Ok(served)) && {
            &&& served.repr_type.media_type@ == "text/plain"@
            &&& served.repr_type.params@.len() == 1
            &&& served.repr_type.params@[0].0@ == "charset"@
            &&& served.repr_type.params@[0].1@ == "utf-8"@
            &&& served.expiry == Expiry::Always
            &&& age_format::age_sealings(keys, encode_utf8(pending.input@)).contains(served.bytes@)
            &&& age_format::age_header(served.bytes@)
            &&& forall|identity: Seq<char>, i: int|
                #![trigger age_format::age_identity(identity), lines@[i]]
                0 <= i < lines@.len() && age_format::age_identity(identity)
                    == age_format::age_recipient(lines@[i]@) ==> {
                    &&& age_format::age_unlocks(served.bytes@, identity)
                    &&& age_format::age_payload(served.bytes@, identity) == Some(
                        encode_utf8(pending.input@),
                    )
                }
        },
{
    every_line_is_a_recipient(endpoint, key, text, lines, recipients);
    a_call_seals_to_its_list(endpoint, pending, key, recipients, served);
    let found = recipients->Ok_0@;
    assert forall|i: int| 0 <= i < keys.len() implies (#[trigger] found[i])@ == keys[i] by {
        assert(age_format::age_recipient(lines@[i]@) == Ok::<Seq<char>, Seq<char>>(keys[i]));
    }
    assert forall|i: int| 0 <= i < found.len() implies !unsealable((#[trigger] found[i])@) by {
        assert(found[i]@ == keys[i]);
    }
    assert(say(found, keys));
    let bytes = served->Some_0->Ok_0.bytes@;
    assert forall|identity: Seq<char>, i: int|
        #![trigger age_format::age_identity(identity), lines@[i]]
        0 <= i < lines@.len() && age_format::age_identity(identity) == age_format::age_recipient(
            lines@[i]@,
        ) implies {
        &&& age_format::age_unlocks(bytes, identity)
        &&& age_format::age_payload(bytes, identity) == Some(encode_utf8(pending.input@))
    } by {
        assert(found[i]@ == keys[i]);
    }
}

// Plaintexts.

/// The identity that a key resource holds is its text, trimmed; one that does
/// not parse is refused for the reason that `age` gives.
pub proof fn the_identity_is_the_trimmed_text(
    endpoint: Decrypt,
    key: Vec<u8>,
    text: &str,
    trimmed: String,
    identity: Result<String, Error>,
)
    requires
        call_ensures(Decrypt::identity, (&endpoint, key), identity),
        valid_utf8(key@) ==> text@ == decode_utf8(key@) && call_ensures(
            text::trim,
            (text,),
            trimmed,
        ),
    ensures
        !valid_utf8(key@) ==> (identity matches Err(error) && is_endpoint_error(
            error,
            "urn:encrypt:decrypt"@ + ": key resource is not UTF-8 text"@,
        )),
        valid_utf8(key@) ==> match age_format::age_identity(trimmed@) {
            Ok(_) => identity matches Ok(identity) && identity@ == trimmed@,
            Err(reason) => identity matches Err(error) && is_endpoint_error(
                error,
                "urn:encrypt:decrypt: bad age identity: "@ + reason,
            ),
        },
{
}

/// No refusal of an identity repeats any of it: there are four. And no identity
/// is an IRI.
pub proof fn identity_refusals_are_fixed(
    endpoint: Decrypt,
    key: Vec<u8>,
    identity: Result<String, Error>,
)
    requires
        call_ensures(Decrypt::identity, (&endpoint, key), identity),
    ensures
        identity matches Ok(identity) ==> !(identity@.contains(':')
            && invocation::parses_as_iri(identity@)),
        identity matches Err(error) ==> {
            let bad = "urn:encrypt:decrypt: bad age identity: "@;
            ||| is_endpoint_error(error, "urn:encrypt:decrypt"@ + ": key resource is not UTF-8 text"@)
            ||| is_endpoint_error(error, bad + "invalid Bech32 encoding"@)
            ||| is_endpoint_error(error, bad + "incorrect HRP"@)
            ||| is_endpoint_error(error, bad + "incorrect identity length"@)
        },
{
}

/// A plaintext as it is served: as bytes, and cacheable.
pub open spec fn is_plaintext(served: Representation, bytes: Seq<u8>) -> bool {
    &&& served.bytes@ == bytes
    &&& served.repr_type.media_type@ == "application/octet-stream"@
    &&& served.repr_type.params@.len() == 0
    &&& served.expiry == Expiry::Never
}

/// What opening gives is served as it is, whatever bytes it is. A key that does
/// not fit is a denial; any other fault is an error of the endpoint. Each is
/// reported in its words.
pub proof fn opened_is_served_or_reported(
    endpoint: Decrypt,
    opened: Result<Vec<u8>, OpenFault>,
    served: Result<Representation, Error>,
)
    requires
        call_ensures(Decrypt::opened, (&endpoint, opened), served),
    ensures
        match opened {
            Ok(bytes) => served matches Ok(served) && is_plaintext(served, bytes@),
            Err(OpenFault::Header(e)) => served matches Err(Error::Endpoint(message)) && says(
                "urn:encrypt:decrypt: "@,
                &e,
                message@,
            ),
            Err(OpenFault::Key(e)) => served matches Err(Error::Denied(message)) && says(
                "urn:encrypt:decrypt: "@,
                &e,
                message@,
            ),
            Err(OpenFault::Body(e)) => served matches Err(Error::Endpoint(message)) && says(
                "urn:encrypt:decrypt: read: "@,
                &e,
                message@,
            ),
        },
{
    if let Ok(_) = opened {
        let served = served->Ok_0;
        assert(served@.repr_type.params.len() == served.repr_type.params@.len());
    }
}

/// A message in the words of an error of decryption, out of those given.
pub open spec fn in_words_of_decryption(
    prefix: Seq<char>,
    texts: Set<Seq<char>>,
    message: Seq<char>,
) -> bool {
    &&& exists|e: age::DecryptError| #[trigger] says(prefix, &e, message)
    &&& exists|text: Seq<char>| #[trigger] texts.contains(text) && message == prefix + text
}

/// A message in the words of an error of reading, out of those given.
pub open spec fn in_words_of_reading(
    prefix: Seq<char>,
    texts: Set<Seq<char>>,
    message: Seq<char>,
) -> bool {
    &&& exists|e: std::io::Error| #[trigger] says(prefix, &e, message)
    &&& exists|text: Seq<char>| #[trigger] texts.contains(text) && message == prefix + text
}

/// How a call of `urn:encrypt:decrypt` ends, given the identity that its key
/// resource holds: with the error that the resource draws; or with the
/// plaintext, exactly where the input has a header, the identity unlocks it and
/// the payload reads to its end; or else with the error of the step that fails.
pub open spec fn ends_opened(
    identity: Result<String, Error>,
    input: Seq<char>,
    served: Result<Representation, Error>,
) -> bool {
    match identity {
        Err(error) => served matches Err(reported) && same_error(reported, error),
        Ok(identity) => {
            let sealed = encode_utf8(input);
            let payload = age_format::age_payload(sealed, identity@);
            &&& served is Ok <==> age_format::age_header(sealed) && age_format::age_unlocks(
                sealed,
                identity@,
            ) && payload is Some
            &&& served matches Ok(served) ==> is_plaintext(served, payload->Some_0)
            &&& !age_format::age_header(sealed) ==> (served matches Err(Error::Endpoint(message))
                && in_words_of_decryption(
                "urn:encrypt:decrypt: "@,
                age_format::age_header_errors(sealed),
                message@,
            ))
            &&& age_format::age_header(sealed) && !age_format::age_unlocks(sealed, identity@) ==> (
            served matches Err(Error::Denied(message)) && in_words_of_decryption(
                "urn:encrypt:decrypt: "@,
                age_format::age_key_errors(sealed, identity@),
                message@,
            ))
            &&& age_format::age_header(sealed) && age_format::age_unlocks(sealed, identity@)
                && payload is None ==> (served matches Err(Error::Endpoint(message))
                && in_words_of_reading(
                "urn:encrypt:decrypt: read: "@,
                age_format::age_read_errors(sealed, identity@),
                message@,
            ))
        },
    }
}

/// A plaintext is served exactly where the input opens, and is then what it
/// opens to, byte for byte; a damaged input and a key that does not fit are
/// errors.
pub proof fn a_call_opens_or_fails(
    endpoint: Decrypt,
    pending: Pending,
    key: Vec<u8>,
    identity: Result<String, Error>,
    served: Result<Representation, Error>,
)
    requires
        call_ensures(Decrypt::identity, (&endpoint, key), identity),
        call_ensures(Decrypt::resume, (&endpoint, &pending, key), served),
    ensures
        ends_opened(identity, pending.input@, served),
{
    if let Ok(text) = identity {
        lemma_opened(text, pending.input@, served);
    }
}

proof fn lemma_opened(identity: String, input: Seq<char>, served: Result<Representation, Error>)
    requires
        decrypt::serves_opened(repr::outcome(served), encode_utf8(input), identity@),
    ensures
        ends_opened(Ok(identity), input, served),
{
    if let Ok(served) = served {
        assert(served@.repr_type.params.len() == served.repr_type.params@.len());
    } else {
        let sealed = encode_utf8(input);
        let message = match served->Err_0 {
            Error::Endpoint(message) => message@,
            Error::Denied(message) => message@,
            _ => Seq::empty(),
        };
        let short = "urn:encrypt:decrypt: "@;
        let long = "urn:encrypt:decrypt: read: "@;
        if !age_format::age_header(sealed) || !age_format::age_unlocks(sealed, identity@) {
            let e = choose|e: age::DecryptError| #[trigger] error::shown(short, &e, message);
            assert(says(short, &e, message));
            let texts = laws::wordings(sealed, identity@);
            assert(error::worded(short, texts, message));
            assert(exists|text: Seq<char>| #[trigger]
                texts.contains(text) && message == short + text);
        } else {
            let e = choose|e: std::io::Error| #[trigger] error::shown(long, &e, message);
            assert(says(long, &e, message));
            let texts = laws::wordings(sealed, identity@);
            assert(error::worded(long, texts, message));
            assert(exists|text: Seq<char>| #[trigger]
                texts.contains(text) && message == long + text);
        }
    }
}

// The same, case by case.

/// Where a call of `urn:encrypt:encrypt` waits, it waits for the IRI that was
/// passed as `to`, with the text that was passed; where not, it says what is
/// missing or wrong.
pub proof fn encrypt_reads_what_is_named(
    endpoint: Encrypt,
    call: Invocation,
    given: Option<String>,
    piped: Option<String>,
    named: Option<String>,
    pending: Result<Pending, Error>,
)
    requires
        call_ensures(Arguments::inline_str, (&call.arguments, "in"), given),
        call_ensures(Arguments::inline_str, (&call.arguments, "content"), piped),
        call_ensures(Arguments::inline_str, (&call.arguments, "to"), named),
        call_ensures(Encrypt::invoke, (&endpoint, &call), pending),
    ensures
        given is None && piped is None ==> (pending matches Err(Error::MissingArgument(name))
            && name@ == "in"@),
        (given is Some || piped is Some) && named is None ==> (pending matches Err(
            Error::MissingArgument(name),
        ) && name@ == "to"@),
        (given is Some || piped is Some) && (named matches Some(text) && !(text@.contains(':')
            && invocation::parses_as_iri(text@))) ==> (pending matches Err(
            Error::InvalidArgument { name, detail },
        ) && name@ == "to"@ && detail@ == "urn:encrypt:encrypt"@ + ": `"@ + "to"@
            + "` must be an IRI naming a key resource (a `urn:file:`, a `urn:secret:*`); the key itself is never passed by value"@),
        (given is Some || piped is Some) && (named matches Some(text) && text@.contains(':')
            && invocation::parses_as_iri(text@)) ==> (pending matches Ok(pending) && pending.key@
            == named->Some_0@ && pending.input@ == (if given is Some {
            given->Some_0@
        } else {
            piped->Some_0@
        })),
{
    encrypt_waits_for_to(endpoint, call, given, piped, named, pending);
}

/// Where a call of `urn:encrypt:decrypt` waits, it waits for the IRI that was
/// passed as `key`, with the text that was passed; where not, it says what is
/// missing or wrong.
pub proof fn decrypt_reads_what_is_named(
    endpoint: Decrypt,
    call: Invocation,
    given: Option<String>,
    piped: Option<String>,
    named: Option<String>,
    pending: Result<Pending, Error>,
)
    requires
        call_ensures(Arguments::inline_str, (&call.arguments, "in"), given),
        call_ensures(Arguments::inline_str, (&call.arguments, "content"), piped),
        call_ensures(Arguments::inline_str, (&call.arguments, "key"), named),
        call.capability is Root || (call.capability matches Capability::Scoped(held) && exists|i: int|
            0 <= i < held@.len() && (#[trigger] held@[i])@ == "urn:cap:decrypt"@),
        call_ensures(Decrypt::invoke, (&endpoint, &call), pending),
    ensures
        given is None && piped is None ==> (pending matches Err(Error::MissingArgument(name))
            && name@ == "in"@),
        (given is Some || piped is Some) && named is None ==> (pending matches Err(
            Error::MissingArgument(name),
        ) && name@ == "key"@),
        (given is Some || piped is Some) && (named matches Some(text) && !(text@.contains(':')
            && invocation::parses_as_iri(text@))) ==> (pending matches Err(
            Error::InvalidArgument { name, detail },
        ) && name@ == "key"@ && detail@ == "urn:encrypt:decrypt"@ + ": `"@ + "key"@
            + "` must be an IRI naming a key resource (a `urn:file:`, a `urn:secret:*`); the key itself is never passed by value"@),
        (given is Some || piped is Some) && (named matches Some(text) && text@.contains(':')
            && invocation::parses_as_iri(text@)) ==> (pending matches Ok(pending) && pending.key@
            == named->Some_0@ && pending.input@ == (if given is Some {
            given->Some_0@
        } else {
            piped->Some_0@
        })),
{
    decrypt_waits_for_key(endpoint, call, given, piped, named, pending);
}

/// A caller who does not hold `urn:cap:decrypt` is refused, whatever else is
/// said.
pub proof fn decrypt_refuses_the_rest(
    endpoint: Decrypt,
    call: Invocation,
    held: Vec<String>,
    pending: Result<Pending, Error>,
)
    requires
        call.capability == Capability::Scoped(held),
        forall|i: int| 0 <= i < held@.len() ==> (#[trigger] held@[i])@ != "urn:cap:decrypt"@,
        call_ensures(Decrypt::invoke, (&endpoint, &call), pending),
    ensures
        pending matches Err(Error::Denied(message)) && message@
            == "urn:encrypt:decrypt requires the "@ + "urn:cap:decrypt"@ + " capability"@,
{
    let views = text::views(held@);
    if views.contains("urn:cap:decrypt"@) {
        let i = choose|i: int| 0 <= i < views.len() && views[i] == "urn:cap:decrypt"@;
        assert(held@[i]@ == views[i]);
    }
}

/// A line that parses to no recipient refuses the whole call, for the reason of
/// the first such line; nothing is sealed to the others.
pub proof fn a_bad_line_refuses_the_call(
    endpoint: Encrypt,
    pending: Pending,
    key: Vec<u8>,
    text: &str,
    lines: Vec<String>,
    bad: int,
    reason: Seq<char>,
    recipients: Result<Vec<String>, Error>,
    served: Option<Result<Representation, Error>>,
)
    requires
        valid_utf8(key@),
        text@ == decode_utf8(key@),
        call_ensures(text::list_keys, (text,), lines),
        0 <= bad < lines@.len(),
        forall|i: int|
            0 <= i < bad ==> age_format::age_recipient((#[trigger] lines@[i])@) is Ok,
        age_format::age_recipient(lines@[bad]@) == Err::<Seq<char>, Seq<char>>(reason),
        call_ensures(Encrypt::recipients, (&endpoint, key), recipients),
        call_ensures(Encrypt::resume, (&endpoint, &pending, key), served),
    ensures
        served matches Some(Err(Error::Endpoint(message))) && message@
            == "urn:encrypt:encrypt: bad age recipient: "@ + reason,
{
    the_first_bad_line_is_reported(endpoint, key, text, lines, bad, reason, recipients);
    a_call_seals_to_its_list(endpoint, pending, key, recipients, served);
}

/// A ciphertext comes only where every line of the key resource parses.
pub proof fn only_a_whole_list_is_sealed_to(
    endpoint: Encrypt,
    pending: Pending,
    key: Vec<u8>,
    text: &str,
    lines: Vec<String>,
    served: Representation,
)
    requires
        text@ == decode_utf8(key@),
        call_ensures(text::list_keys, (text,), lines),
        call_ensures(Encrypt::resume, (&endpoint, &pending, key), Some(Ok(served))),
    ensures
        valid_utf8(key@),
        lines@.len() > 0,
        forall|i: int|
            0 <= i < lines@.len() ==> age_format::age_recipient((#[trigger] lines@[i])@) is Ok,
{
    let keys = text::views(lines@);
    assert(keys == text::key_lines(text@));
    laws::every_listed_key_counts(keys);
    assert(keys.len() == lines@.len());
    assert forall|i: int| 0 <= i < lines@.len() implies age_format::age_recipient(
        (#[trigger] lines@[i])@,
    ) is Ok by {
        assert(keys[i] == lines@[i]@);
    }
}

/// A key resource that holds no identity refuses the call, for the reason that
/// `age` gives.
pub proof fn a_bad_identity_refuses_the_call(
    endpoint: Decrypt,
    pending: Pending,
    key: Vec<u8>,
    text: &str,
    trimmed: String,
    reason: Seq<char>,
    identity: Result<String, Error>,
    served: Result<Representation, Error>,
)
    requires
        valid_utf8(key@),
        text@ == decode_utf8(key@),
        call_ensures(text::trim, (text,), trimmed),
        age_format::age_identity(trimmed@) == Err::<Seq<char>, Seq<char>>(reason),
        call_ensures(Decrypt::identity, (&endpoint, key), identity),
        call_ensures(Decrypt::resume, (&endpoint, &pending, key), served),
    ensures
        served matches Err(Error::Endpoint(message)) && message@
            == "urn:encrypt:decrypt: bad age identity: "@ + reason,
{
    the_identity_is_the_trimmed_text(endpoint, key, text, trimmed, identity);
    a_call_opens_or_fails(endpoint, pending, key, identity, served);
}

/// Whatever bytes the input opens to are served, as they are.
pub proof fn what_opens_is_served(
    endpoint: Decrypt,
    pending: Pending,
    key: Vec<u8>,
    text: &str,
    trimmed: String,
    identity: Result<String, Error>,
    plaintext: Seq<u8>,
    served: Result<Representation, Error>,
)
    requires
        valid_utf8(key@),
        text@ == decode_utf8(key@),
        call_ensures(text::trim, (text,), trimmed),
        age_format::age_identity(trimmed@) is Ok,
        age_format::age_header(encode_utf8(pending.input@)),
        age_format::age_unlocks(encode_utf8(pending.input@), trimmed@),
        age_format::age_payload(encode_utf8(pending.input@), trimmed@) == Some(plaintext),
        call_ensures(Decrypt::identity, (&endpoint, key), identity),
        call_ensures(Decrypt::resume, (&endpoint, &pending, key), served),
    ensures
        served matches Ok(served) && {
            &&& served.bytes@ == plaintext
            &&& served.repr_type.media_type@ == "application/octet-stream"@
            &&& served.repr_type.params@.len() == 0
            &&& served.expiry == Expiry::Never
        },
{
    the_identity_is_the_trimmed_text(endpoint, key, text, trimmed, identity);
    a_call_opens_or_fails(endpoint, pending, key, identity, served);
}

/// What does not open is an error: a denial where the identity does not unlock
/// the input, and a fault where the input has no header or its payload cannot be
/// read to its end. The message is the text of that error, behind what tells the
/// step.
pub proof fn what_does_not_open_is_an_error(
    endpoint: Decrypt,
    pending: Pending,
    key: Vec<u8>,
    text: &str,
    trimmed: String,
    identity: Result<String, Error>,
    served: Result<Representation, Error>,
)
    requires
        valid_utf8(key@),
        text@ == decode_utf8(key@),
        call_ensures(text::trim, (text,), trimmed),
        age_format::age_identity(trimmed@) is Ok,
        call_ensures(Decrypt::identity, (&endpoint, key), identity),
        call_ensures(Decrypt::resume, (&endpoint, &pending, key), served),
    ensures
        ({
            let sealed = encode_utf8(pending.input@);
            &&& !age_format::age_header(sealed) ==> (served matches Err(Error::Endpoint(message))
                && exists|words: Seq<char>| #[trigger]
                age_format::age_header_errors(sealed).contains(words) && message@
                    == "urn:encrypt:decrypt: "@ + words)
            &&& age_format::age_header(sealed) && !age_format::age_unlocks(sealed, trimmed@) ==> (
            served matches Err(Error::Denied(message)) && exists|words: Seq<char>| #[trigger]
                age_format::age_key_errors(sealed, trimmed@).contains(words) && message@
                    == "urn:encrypt:decrypt: "@ + words)
            &&& age_format::age_header(sealed) && age_format::age_unlocks(sealed, trimmed@)
                && age_format::age_payload(sealed, trimmed@) is None ==> (served matches Err(
                Error::Endpoint(message),
            ) && exists|words: Seq<char>| #[trigger]
                age_format::age_read_errors(sealed, trimmed@).contains(words) && message@
                    == "urn:encrypt:decrypt: read: "@ + words)
        }),
{
    the_identity_is_the_trimmed_text(endpoint, key, text, trimmed, identity);
    a_call_opens_or_fails(endpoint, pending, key, identity, served);
}

// Whole calls.

/// A whole call of `urn:encrypt:encrypt` fails as its first step does, and else
/// ends as its second step does on the input and the key at hand.
pub proof fn a_whole_call_seals(
    endpoint: Encrypt,
    call: Invocation,
    key: Vec<u8>,
    pending: Result<Pending, Error>,
    recipients: Result<Vec<String>, Error>,
    served: Option<Result<Representation, Error>>,
)
    requires
        call_ensures(Encrypt::invoke, (&endpoint, &call), pending),
        call_ensures(Encrypt::recipients, (&endpoint, key), recipients),
        call_ensures(laws::run_encrypt, (&call, key), served),
    ensures
        match pending {
            Err(error) => served matches Some(Err(reported)) && same_error(reported, error),
            Ok(pending) => ends_sealed(recipients, pending.input@, served),
        },
{
    if let Ok(pending) = pending {
        if let Ok(found) = recipients {
            lemma_low_order(found@);
            if let Some(Ok(served)) = served {
                lemma_is_sealing(served, found@, pending.input@);
            }
        }
    }
}

/// A whole call of `urn:encrypt:decrypt` fails as its first step does, and else
/// ends as its second step does on the input and the key at hand.
pub proof fn a_whole_call_opens(
    endpoint: Decrypt,
    call: Invocation,
    key: Vec<u8>,
    pending: Result<Pending, Error>,
    identity: Result<String, Error>,
    served: Result<Representation, Error>,
)
    requires
        call_ensures(Decrypt::invoke, (&endpoint, &call), pending),
        call_ensures(Decrypt::identity, (&endpoint, key), identity),
        call_ensures(laws::run_decrypt, (&call, key), served),
    ensures
        match pending {
            Err(error) => served matches Err(reported) && same_error(reported, error),
            Ok(pending) => ends_opened(identity, pending.input@, served),
        },
{
    if let Ok(pending) = pending {
        if let Ok(text) = identity {
            lemma_opened(text, pending.input@, served);
        }
    }
}

// Descriptions.

/// An argument declared as required says what it was given.
pub proof fn a_required_argument_is_as_given(name: &str, summary: &str, class: &str, r: ArgSpec)
    requires
        call_ensures(ArgSpec::required, (name, summary, class), r),
    ensures
        r.name@ == name@,
        r.summary@ == summary@,
        r.class@ == class@,
        r.required,
{
}

/// `urn:encrypt:encrypt` declares that it takes `in` and `to`, both required,
/// serves text, and asks for no capability.
pub proof fn encrypt_declares_itself(endpoint: Encrypt, name: &str, r: Description)
    requires
        call_ensures(Encrypt::name, (&endpoint,), name),
        call_ensures(Encrypt::describe, (&endpoint,), r),
    ensures
        name@ == "encrypt"@,
        r.id@ == "encrypt"@,
        r.title@ == "Encrypt (age / X25519)"@,
        r.summary@ == "Seal bytes to one or more recipient public keys (age X25519), emitting ASCII-armored age ciphertext. Pass the bytes as `in` (or pipe them as `content`) and the recipient key resource as `to=` (a `urn:…`/`file:` resolving to one or more `age1…` recipients, one per line — multi-recipient, so an inbox seals to every device). Open: anyone may encrypt to a public key. No keygen here."@,
        r.verbs@ == seq![Verb::Source, Verb::Meta],
        r.requires@.len() == 0,
        r.outputs@.len() == 1,
        r.outputs@[0]@ == "text/plain;charset=utf-8"@,
        r.inputs@.len() == 2,
        r.inputs@[0].name@ == "in"@,
        r.inputs@[0].summary@ == "the bytes to encrypt (positional or piped as `content`)"@,
        r.inputs@[0].class@ == "http://www.w3.org/2001/XMLSchema#string"@,
        r.inputs@[0].required,
        r.inputs@[1].name@ == "to"@,
        r.inputs@[1].summary@ == "recipient public-key resource: ONE IRI whose bytes list one or more age1… recipients, one per line"@,
        r.inputs@[1].class@ == "http://www.w3.org/2000/01/rdf-schema#Resource"@,
        r.inputs@[1].required,
{
    assert(r@.requires.len() == r.requires@.len());
    assert(r@.outputs.len() == r.outputs@.len());
    assert(r@.outputs[0] == r.outputs@[0]@);
    assert(r@.inputs.len() == r.inputs@.len());
    assert(r@.inputs[0] == r.inputs@[0]@);
    assert(r@.inputs[1] == r.inputs@[1]@);
}

/// `urn:encrypt:decrypt` declares that it takes `in` and `key`, both required,
/// serves bytes, and asks for `urn:cap:decrypt`.
pub proof fn decrypt_declares_itself(endpoint: Decrypt, name: &str, r: Description)
    requires
        call_ensures(Decrypt::name, (&endpoint,), name),
        call_ensures(Decrypt::describe, (&endpoint,), r),
    ensures
        name@ == "decrypt"@,
        r.id@ == "decrypt"@,
        r.title@ == "Decrypt (age / X25519)"@,
        r.summary@ == "Open ASCII-armored age ciphertext with a kernel-resolved identity. Pass the ciphertext as `in` (or piped `content`) and the identity resource as `key=` (an `AGE-SECRET-KEY-1…`). Requires the urn:cap:decrypt capability (it wields the private key); a wrong key or tampered ciphertext is a typed Denied/error."@,
        r.verbs@ == seq![Verb::Source, Verb::Meta],
        r.requires@.len() == 1,
        r.requires@[0]@ == "urn:cap:decrypt"@,
        decrypt::CAP_DECRYPT@ == "urn:cap:decrypt"@,
        r.outputs@.len() == 1,
        r.outputs@[0]@ == "application/octet-stream"@,
        r.inputs@.len() == 2,
        r.inputs@[0].name@ == "in"@,
        r.inputs@[0].summary@ == "the armored age ciphertext (positional or piped as `content`)"@,
        r.inputs@[0].class@ == "http://www.w3.org/2001/XMLSchema#string"@,
        r.inputs@[0].required,
        r.inputs@[1].name@ == "key"@,
        r.inputs@[1].summary@ == "the owner's identity resource (AGE-SECRET-KEY-1…)"@,
        r.inputs@[1].class@ == "http://www.w3.org/2000/01/rdf-schema#Resource"@,
        r.inputs@[1].required,
{
    assert(r@.requires.len() == r.requires@.len());
    assert(r@.requires[0] == r.requires@[0]@);
    assert(r@.outputs.len() == r.outputs@.len());
    assert(r@.outputs[0] == r.outputs@[0]@);
    assert(r@.inputs.len() == r.inputs@.len());
    assert(r@.inputs[0] == r.inputs@[0]@);
    assert(r@.inputs[1] == r.inputs@[1]@);
}

/// The space binds the two endpoints, each at its own IRI.
pub proof fn the_space_binds_both(bindings: Vec<Binding>)
    requires
        call_ensures(crate::space, (), bindings),
    ensures
        bindings@.len() == 2,
        bindings@[0].iri@ == "urn:encrypt:encrypt"@,
        bindings@[0].endpoint == Endpoint::Encrypt,
        bindings@[1].iri@ == "urn:encrypt:decrypt"@,
        bindings@[1].endpoint == Endpoint::Decrypt,
{
    let bound = crate::bound(bindings@);
    assert(bound.len() == bindings@.len());
    assert(bound[0] == (bindings@[0].iri@, bindings@[0].endpoint));
    assert(bound[1] == (bindings@[1].iri@, bindings@[1].endpoint));
}

} // verus!
