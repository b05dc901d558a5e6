//! The age format, as far as this library relies on it: keys in text, sealing
//! to recipients, opening with an identity.
//!
//! The functions that call the `age` crate are not proved: the contract of each
//! says what is taken to be true of the call.
use std::io::{Read, Write};
use std::str::FromStr;

use age::armor::{ArmoredReader, ArmoredWriter, Format};
use age::x25519::{Identity, Recipient};
use age::{Decryptor, Encryptor};
use vstd::prelude::*;
use vstd::utf8::*;

verus! {

/// `age::EncryptError`, carried to where it is shown.
#[verifier::external_type_specification]
#[verifier::external_body]
pub struct ExEncryptError(age::EncryptError);

/// `age::DecryptError`, carried to where it is shown.
#[verifier::external_type_specification]
#[verifier::external_body]
pub struct ExDecryptError(age::DecryptError);

/// `std::io::Error`, carried to where it is shown.
#[verifier::external_type_specification]
#[verifier::external_body]
pub struct ExIoError(std::io::Error);

/// The key that a text names as a recipient: its `age1...` text in canonical
/// form, or why the text names none. What
/// `age::x25519::Recipient::from_str` gives.
pub uninterp spec fn age_recipient(text: Seq<char>) -> Result<Seq<char>, Seq<char>>;

/// The public key of the identity that a text holds: the canonical `age1...`
/// text of its recipient, or why the text holds none. What
/// `age::x25519::Identity::from_str` gives, then `to_public`.
pub uninterp spec fn age_identity(text: Seq<char>) -> Result<Seq<char>, Seq<char>>;

/// Whether the bytes open with an age header, armored or not: whether
/// `age::Decryptor::new` on an `age::armor::ArmoredReader` of them succeeds.
pub uninterp spec fn age_header(sealed: Seq<u8>) -> bool;

/// Whether the identity in a text unlocks the header of the bytes: whether
/// `age::Decryptor::decrypt` succeeds.
pub uninterp spec fn age_unlocks(sealed: Seq<u8>, identity: Seq<char>) -> bool;

/// What the bytes hold behind their header, where it can be read to the end
/// with the identity in a text: what reading the `age::stream::StreamReader`
/// to its end gives.
pub uninterp spec fn age_payload(sealed: Seq<u8>, identity: Seq<char>) -> Option<Seq<u8>>;

/// The texts, one for each locale, that the error of `age::Decryptor::new` shows
/// where the bytes open with no age header.
pub uninterp spec fn age_header_errors(sealed: Seq<u8>) -> Set<Seq<char>>;

/// The texts, one for each locale, that the error of `age::Decryptor::decrypt`
/// shows where the identity in a text does not unlock the header of the bytes.
pub uninterp spec fn age_key_errors(sealed: Seq<u8>, identity: Seq<char>) -> Set<Seq<char>>;

/// The texts, one for each locale, that the error of reading the
/// `age::stream::StreamReader` shows where it cannot be read to its end.
pub uninterp spec fn age_read_errors(sealed: Seq<u8>, identity: Seq<char>) -> Set<Seq<char>>;

/// The files that sealing a plaintext to a list of recipients can give, one for
/// each choice of the random keys: what `age::Encryptor::with_recipients` and the
/// writers behind it can give for these arguments.
pub uninterp spec fn age_sealings(recipients: Seq<Seq<char>>, plaintext: Seq<u8>) -> Set<Seq<u8>>;

/// What a parsed key says.
pub open spec fn key_view(key: Result<String, &'static str>) -> Result<Seq<char>, Seq<char>> {
    match key {
        Ok(key) => Ok(key@),
        Err(reason) => Err(reason@),
    }
}

/// The reasons for which a text is refused as a recipient.
pub open spec fn recipient_refusal(reason: Seq<char>) -> bool {
    ||| reason == "invalid Bech32 encoding"@
    ||| reason == "incorrect HRP"@
    ||| reason == "incorrect pubkey length"@
}

/// The reasons for which a text is refused as an identity.
pub open spec fn identity_refusal(reason: Seq<char>) -> bool {
    ||| reason == "invalid Bech32 encoding"@
    ||| reason == "incorrect HRP"@
    ||| reason == "incorrect identity length"@
}

/// `age::x25519::Recipient::from_str`, and the key's text by its `Display`.
/// Claimed: the outcome depends on the text alone; a key's own text names that
/// key again; a refusal gives one of three reasons, none of them made from the
/// text.
#[verifier::external_body]
pub(crate) fn parse_recipient(text: &str) -> (key: Result<String, &'static str>)
    ensures
        key_view(key) == age_recipient(text@),
        key matches Ok(key) ==> age_recipient(key@) == Ok::<Seq<char>, Seq<char>>(key@),
        key matches Err(reason) ==> recipient_refusal(reason@),
{
    Recipient::from_str(text).map(|key| key.to_string())
}

/// `age::x25519::Identity::from_str`, then `to_public`, and the public key's
/// text by its `Display`. Claimed: the outcome depends on the text alone; an
/// identity's text has no colon in it (it is Bech32); a refusal gives one of
/// three reasons, none of them made from the text.
#[verifier::external_body]
pub(crate) fn parse_identity(text: &str) -> (public: Result<String, &'static str>)
    ensures
        key_view(public) == age_identity(text@),
        public is Ok ==> !text@.contains(':'),
        public matches Err(reason) ==> identity_refusal(reason@),
{
    Identity::from_str(text).map(|identity| identity.to_public().to_string())
}

/// A point of low order on the curve or its twist. Sealing to one yields no
/// shared secret, and `age` panics on it.
pub open spec fn low_order(key: Seq<char>) -> bool {
    ||| key == "age1qqqqqqqqqqqqqqqqqqqqqqqqqqqqqqqqqqqqqqqqqqqqqqqqqqqq5cu47z"@
    ||| key == "age1qyqqqqqqqqqqqqqqqqqqqqqqqqqqqqqqqqqqqqqqqqqqqqqqqqqqj7vrya"@
    ||| key == "age1ur4h5lpmgxu2u9jku0a0r87ydtdqnr0tnsetrlvxvgz3vh6fhqqqzyt4v9"@
    ||| key == "age1t7wft09r2zxzfvwsk92eeql0tvzyghxytqwgapkcyf8dm5ylz9ts6wm9s8"@
    ||| key == "age1anlllllllllllllllllllllllllllllllllllllllllllllllals4n2t7m"@
    ||| key == "age1ahlllllllllllllllllllllllllllllllllllllllllllllllalsn46ayy"@
    ||| key == "age1amlllllllllllllllllllllllllllllllllllllllllllllllalselrwrv"@
    ||| key == "age1qqqqqqqqqqqqqqqqqqqqqqqqqqqqqqqqqqqqqqqqqqqqqqqqqzqqsuwj9m"@
    ||| key == "age1qyqqqqqqqqqqqqqqqqqqqqqqqqqqqqqqqqqqqqqqqqqqqqqqqzqqk67yly"@
    ||| key == "age1ur4h5lpmgxu2u9jku0a0r87ydtdqnr0tnsetrlvxvgz3vh6fhzqqxqejhu"@
    ||| key == "age1t7wft09r2zxzfvwsk92eeql0tvzyghxytqwgapkcyf8dm5ylz8ts72fzt7"@
    ||| key == "age1anllllllllllllllllllllllllllllllllllllllllllllllllls3hcv9z"@
    ||| key == "age1ahlllllllllllllllllllllllllllllllllllllllllllllllllsh3g6la"@
    ||| key == "age1amlllllllllllllllllllllllllllllllllllllllllllllllllsam3fc4"@
}

/// A key that can be sealed to: the canonical text of a recipient that is not
/// of low order.
pub open spec fn sealable(key: Seq<char>) -> bool {
    age_recipient(key) == Ok::<Seq<char>, Seq<char>>(key) && !low_order(key)
}

/// The first line of an armored file.
pub open spec fn begin_marker() -> Seq<char> {
    "-----BEGIN AGE ENCRYPTED FILE-----"@
}

/// The last line of an armored file.
pub open spec fn end_marker() -> Seq<char> {
    "-----END AGE ENCRYPTED FILE-----"@
}

/// A byte of Base64, of its padding, or of a line end.
pub open spec fn armor_byte(b: u8) -> bool {
    ||| 'A' as u8 <= b <= 'Z' as u8
    ||| 'a' as u8 <= b <= 'z' as u8
    ||| '0' as u8 <= b <= '9' as u8
    ||| b == '+' as u8
    ||| b == '/' as u8
    ||| b == '=' as u8
    ||| b == '\n' as u8
    ||| b == '\r' as u8
}

/// Base64 in lines, and nothing else, between `first` and `last`.
pub open spec fn armored_between(bytes: Seq<u8>, first: Seq<u8>, last: Seq<u8>) -> bool {
    &&& first.len() + last.len() <= bytes.len()
    &&& first.is_prefix_of(bytes)
    &&& last.is_suffix_of(bytes)
    &&& forall|i: int|
        first.len() <= i < bytes.len() - last.len() ==> armor_byte(#[trigger] bytes[i])
}

/// ASCII text: Base64 in lines between the two marker lines, the last of them
/// with its line end.
pub open spec fn is_armored(bytes: Seq<u8>) -> bool {
    let first = encode_utf8(begin_marker());
    &&& forall|i: int| 0 <= i < bytes.len() ==> bytes[i] < 0x80
    &&& armored_between(bytes, first, encode_utf8(end_marker() + "\n"@)) || armored_between(
        bytes,
        first,
        encode_utf8(end_marker() + "\r\n"@),
    )
}

/// The bytes open, with the identity in the text, to the plaintext.
pub open spec fn opens_to(sealed: Seq<u8>, identity: Seq<char>, plaintext: Seq<u8>) -> bool {
    &&& age_header(sealed)
    &&& age_unlocks(sealed, identity)
    &&& age_payload(sealed, identity) == Some(plaintext)
}

/// The bytes are an armored file, made by sealing this plaintext to these
/// recipients and no others, that each of the recipients opens to the
/// plaintext.
pub open spec fn sealed_to(
    sealed: Seq<u8>,
    recipients: Seq<Seq<char>>,
    plaintext: Seq<u8>,
) -> bool {
    &&& is_armored(sealed)
    &&& age_sealings(recipients, plaintext).contains(sealed)
    &&& age_header(sealed)
    &&& forall|identity: Seq<char>, i: int|
        #![trigger age_identity(identity), recipients[i]]
        0 <= i < recipients.len() && age_identity(identity) == Ok::<Seq<char>, Seq<char>>(
            recipients[i],
        ) ==> opens_to(sealed, identity, plaintext)
}

/// The step at which sealing failed, with the error of that step.
#[derive(Debug)]
pub enum SealFault {
    /// The recipients cannot be sealed to together.
    Recipients(age::EncryptError),
    /// The armor cannot be started.
    Armor(std::io::Error),
    /// The header cannot be written.
    Header(std::io::Error),
    /// The plaintext cannot be written.
    Write(std::io::Error),
    /// The payload cannot be finished.
    Finish(std::io::Error),
    /// The armor cannot be finished.
    ArmorFinish(std::io::Error),
}

/// The step at which opening failed, with the error of that step.
#[derive(Debug)]
pub enum OpenFault {
    /// There is no header that can be read.
    Header(age::DecryptError),
    /// The identity does not unlock the header.
    Key(age::DecryptError),
    /// The payload cannot be read to its end.
    Body(std::io::Error),
}

/// `age::Encryptor::with_recipients`, its `wrap_output` onto an
/// `age::armor::ArmoredWriter` over a vector, `write_all` and the two
/// `finish`. Claimed: it fails on an empty list of recipients, at the first of
/// these steps, and on nothing else, since a vector takes every write; what it
/// gives is Base64 in lines between the two marker lines; it is one of the
/// files that these recipients and this plaintext allow; it opens with an age
/// header; and any identity whose recipient is in the list opens it to the
/// plaintext. The last disregards the chance, as small as that of guessing a
/// key, that a stanza meant for one recipient also opens under the key of
/// another. Left unsaid, since the bytes rest on fresh random keys: which of
/// the files it is, that two calls give different ones, and that no identity
/// outside the list happens to unlock it.
#[verifier::external_body]
pub(crate) fn seal_armored(recipients: &Vec<String>, plaintext: &[u8]) -> (sealed: Result<
    Vec<u8>,
    SealFault,
>)
    requires
        forall|i: int| 0 <= i < recipients@.len() ==> sealable(#[trigger] recipients@[i]@),
    ensures
        sealed is Ok <==> recipients@.len() > 0,
        sealed matches Err(fault) ==> fault is Recipients,
        sealed matches Ok(bytes) ==> sealed_to(
            bytes@,
            crate::text::views(recipients@),
            plaintext@,
        ),
        sealed matches Ok(bytes) ==> age_sealings(
            crate::text::views(recipients@),
            plaintext@,
        ).contains(bytes@),
{
    let keys = recipients.iter().map(|key| Recipient::from_str(key).expect("a recipient"));
    let keys = keys.collect::<Vec<Recipient>>();
    let keys = keys.iter().map(|key| key as &dyn age::Recipient);
    let encryptor = Encryptor::with_recipients(keys).map_err(SealFault::Recipients)?;
    let armor = ArmoredWriter::wrap_output(Vec::new(), Format::AsciiArmor);
    let armor = armor.map_err(SealFault::Armor)?;
    let mut writer = encryptor.wrap_output(armor).map_err(SealFault::Header)?;
    writer.write_all(plaintext).map_err(SealFault::Write)?;
    let armor = writer.finish().map_err(SealFault::Finish)?;
    armor.finish().map_err(SealFault::ArmorFinish)
}

/// `age::Decryptor::new` on an `age::armor::ArmoredReader`, `decrypt` with one
/// identity, and `read_to_end`. Claimed: which of the three steps fails, what is
/// read where none does, and which texts the error of a failed step can show,
/// depend on the bytes and the identity's text alone. Left unsaid: which of
/// those texts is shown, since it follows the locale that the process has
/// chosen.
#[verifier::external_body]
pub(crate) fn open_armored(sealed: &[u8], identity: &str) -> (opened: Result<Vec<u8>, OpenFault>)
    requires
        age_identity(identity@) is Ok,
    ensures
        opened matches Ok(plaintext) ==> opens_to(sealed@, identity@, plaintext@),
        opened matches Err(OpenFault::Header(_)) ==> !age_header(sealed@),
        opened matches Err(OpenFault::Key(_)) ==> age_header(sealed@) && !age_unlocks(
            sealed@,
            identity@,
        ),
        opened matches Err(OpenFault::Body(_)) ==> age_header(sealed@) && age_unlocks(
            sealed@,
            identity@,
        ) && age_payload(sealed@, identity@) is None,
        opened matches Err(OpenFault::Header(e)) ==> forall|text: String| #[trigger]
            vstd::string::to_string_from_display_ensures(&e, text) ==> age_header_errors(
                sealed@,
            ).contains(text@),
        opened matches Err(OpenFault::Key(e)) ==> forall|text: String| #[trigger]
            vstd::string::to_string_from_display_ensures(&e, text) ==> age_key_errors(
                sealed@,
                identity@,
            ).contains(text@),
        opened matches Err(OpenFault::Body(e)) ==> forall|text: String| #[trigger]
            vstd::string::to_string_from_display_ensures(&e, text) ==> age_read_errors(
                sealed@,
                identity@,
            ).contains(text@),
{
    let identity = Identity::from_str(identity).expect("an identity");
    let decryptor = Decryptor::new(ArmoredReader::new(sealed)).map_err(OpenFault::Header)?;
    let identities = std::iter::once(&identity as &dyn age::Identity);
    let mut reader = decryptor.decrypt(identities).map_err(OpenFault::Key)?;
    let mut plaintext = Vec::new();
    reader.read_to_end(&mut plaintext).map_err(OpenFault::Body)?;
    Ok(plaintext)
}

/// Tests for a point of low order.
pub fn is_low_order(key: &String) -> (r: bool)
    ensures
        r == low_order(key@),
{
    *key == "age1qqqqqqqqqqqqqqqqqqqqqqqqqqqqqqqqqqqqqqqqqqqqqqqqqqqq5cu47z".to_string()
        || *key == "age1qyqqqqqqqqqqqqqqqqqqqqqqqqqqqqqqqqqqqqqqqqqqqqqqqqqqj7vrya".to_string()
        || *key == "age1ur4h5lpmgxu2u9jku0a0r87ydtdqnr0tnsetrlvxvgz3vh6fhqqqzyt4v9".to_string()
        || *key == "age1t7wft09r2zxzfvwsk92eeql0tvzyghxytqwgapkcyf8dm5ylz9ts6wm9s8".to_string()
        || *key == "age1anlllllllllllllllllllllllllllllllllllllllllllllllals4n2t7m".to_string()
        || *key == "age1ahlllllllllllllllllllllllllllllllllllllllllllllllalsn46ayy".to_string()
        || *key == "age1amlllllllllllllllllllllllllllllllllllllllllllllllalselrwrv".to_string()
        || *key == "age1qqqqqqqqqqqqqqqqqqqqqqqqqqqqqqqqqqqqqqqqqqqqqqqqqzqqsuwj9m".to_string()
        || *key == "age1qyqqqqqqqqqqqqqqqqqqqqqqqqqqqqqqqqqqqqqqqqqqqqqqqzqqk67yly".to_string()
        || *key == "age1ur4h5lpmgxu2u9jku0a0r87ydtdqnr0tnsetrlvxvgz3vh6fhzqqxqejhu".to_string()
        || *key == "age1t7wft09r2zxzfvwsk92eeql0tvzyghxytqwgapkcyf8dm5ylz8ts72fzt7".to_string()
        || *key == "age1anllllllllllllllllllllllllllllllllllllllllllllllllls3hcv9z".to_string()
        || *key == "age1ahlllllllllllllllllllllllllllllllllllllllllllllllllsh3g6la".to_string()
        || *key == "age1amlllllllllllllllllllllllllllllllllllllllllllllllllsam3fc4".to_string()
}

/// ASCII text is UTF-8.
pub proof fn lemma_ascii_is_utf8(bytes: Seq<u8>)
    requires
        forall|i: int| 0 <= i < bytes.len() ==> bytes[i] < 0x80,
    ensures
        valid_utf8(bytes),
{
    let n = bytes.len() as int;
    assert forall|i: int| 0 <= i < n implies #[trigger] is_leading_byte_width_1(bytes[i]) by {
        let b = bytes[i];
        assert(b < 0x80);
    }
    partial_valid_utf8_extend_ascii_block(bytes, 0, n);
    assert(bytes.subrange(0, n) == bytes);
}

} // verus!
