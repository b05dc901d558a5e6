//! What an endpoint is called with: named arguments and the caller's
//! capability.
use vstd::prelude::*;
use vstd::utf8::*;

use crate::error::{Error, ErrorView};

verus! {

/// An argument as the caller passed it.
#[derive(Debug, PartialEq, Eq)]
pub enum Arg {
    /// By value: the bytes themselves.
    Inline(Vec<u8>),
    /// By reference: the name of a resource or of some stored content.
    Reference(String),
}

/// What an [`Arg`] holds.
pub enum ArgView {
    Inline(Seq<u8>),
    Reference(Seq<char>),
}

impl View for Arg {
    type V = ArgView;

    open spec fn view(&self) -> ArgView {
        match *self {
            Arg::Inline(bytes) => ArgView::Inline(bytes@),
            Arg::Reference(name) => ArgView::Reference(name@),
        }
    }
}

/// The arguments of a call, by name.
#[derive(Debug)]
pub struct Arguments {
    entries: Vec<(String, Arg)>,
}

/// The arguments that `entries` give: a later one replaces an earlier one of
/// its name.
spec fn by_name(entries: Seq<(String, Arg)>) -> Map<Seq<char>, ArgView>
    decreases entries.len(),
{
    if entries.len() == 0 {
        Map::empty()
    } else {
        by_name(entries.drop_last()).insert(entries.last().0@, entries.last().1@)
    }
}

impl View for Arguments {
    type V = Map<Seq<char>, ArgView>;

    closed spec fn view(&self) -> Map<Seq<char>, ArgView> {
        by_name(self.entries@)
    }
}

/// The text passed by value under `name`: there is one where the argument is
/// inline and its bytes are UTF-8.
pub open spec fn inline_text(arguments: Map<Seq<char>, ArgView>, name: Seq<char>) -> Option<
    Seq<char>,
> {
    if arguments.contains_key(name) {
        match arguments[name] {
            ArgView::Inline(bytes) => if valid_utf8(bytes) {
                Some(decode_utf8(bytes))
            } else {
                None
            },
            ArgView::Reference(_) => None,
        }
    } else {
        None
    }
}

/// What an optional string says.
pub open spec fn optional(text: Option<String>) -> Option<Seq<char>> {
    match text {
        Some(text) => Some(text@),
        None => None,
    }
}

/// `std::string::String::from_utf8`. Claimed: it gives the text that the bytes
/// encode where they are valid UTF-8, and an error, here `None`, where they
/// are not.
#[verifier::external_body]
pub(crate) fn utf8_text(bytes: Vec<u8>) -> (text: Option<String>)
    ensures
        optional(text) == if valid_utf8(bytes@) {
            Some(decode_utf8(bytes@))
        } else {
            None::<Seq<char>>
        },
{
    String::from_utf8(bytes).ok()
}

impl Arguments {
    /// No arguments.
    pub fn new() -> (r: Arguments)
        ensures
            r@ == Map::<Seq<char>, ArgView>::empty(),
    {
        Arguments { entries: Vec::new() }
    }

    /// Adds an argument, in place of one of the same name.
    pub fn with_arg(self, name: &str, arg: Arg) -> (r: Arguments)
        ensures
            r@ == self@.insert(name@, arg@),
    {
        let mut entries = self.entries;
        entries.push((name.to_string(), arg));
        assert(entries@.drop_last() == self.entries@);
        Arguments { entries }
    }

    /// Reads the text passed by value under `name`.
    pub fn inline_str(&self, name: &str) -> (text: Option<String>)
        ensures
            optional(text) == inline_text(self@, name@),
    {
        let wanted = name.to_string();
        let mut rest: usize = self.entries.len();
        assert(self.entries@.take(rest as int) == self.entries@);
        while rest > 0
            invariant
                rest <= self.entries@.len(),
                wanted@ == name@,
                inline_text(by_name(self.entries@), name@) == inline_text(
                    by_name(self.entries@.take(rest as int)),
                    name@,
                ),
            decreases rest,
        {
            rest = rest - 1;
            assert(self.entries@.take(rest + 1).drop_last() == self.entries@.take(rest as int));
            assert(self.entries@.take(rest + 1).last() == self.entries@[rest as int]);
            let entry = &self.entries[rest];
            if entry.0 == wanted {
                return match &entry.1 {
                    Arg::Inline(bytes) => {
                        let copy: Vec<u8> = bytes.clone();
                        assert(copy@ == bytes@);
                        utf8_text(copy)
                    },
                    Arg::Reference(_) => None,
                };
            }
        }
        None
    }
}

/// The authority that a caller holds.
#[derive(Debug, PartialEq, Eq)]
pub enum Capability {
    /// Every scope.
    Root,
    /// The scopes named here.
    Scoped(Vec<String>),
}

impl Capability {
    /// Whether the scope is held.
    pub open spec fn holds(self, scope: Seq<char>) -> bool {
        match self {
            Capability::Root => true,
            Capability::Scoped(held) => crate::text::views(held@).contains(scope),
        }
    }
}

/// A scope that is granted by being held: it cannot be read as the denial of a
/// scope, which has a segment that opens with a dash, nor as the name of a
/// principal.
pub open spec fn plain_scope(scope: Seq<char>) -> bool {
    !scope.contains('-') && !"urn:cap:principal:"@.is_prefix_of(scope)
}

/// `ikigai_core::Capability::allows`. Claimed: root allows every scope, and any
/// other capability a plain scope exactly where it holds it.
#[verifier::external_body]
pub(crate) fn allows(capability: &Capability, scope: &str) -> (allowed: bool)
    requires
        plain_scope(scope@),
    ensures
        allowed == capability.holds(scope@),
{
    let capability = match capability {
        Capability::Root => ikigai_core::Capability::root(),
        Capability::Scoped(held) => ikigai_core::Capability::scoped(held.iter().cloned()),
    };
    capability.allows(scope)
}

/// Whether `ikigai_core::Iri::parse` accepts a text that has a colon in it.
pub uninterp spec fn parses_as_iri(text: Seq<char>) -> bool;

/// Whether a text is an absolute IRI. It has a colon, behind its scheme.
pub open spec fn is_iri(text: Seq<char>) -> bool {
    text.contains(':') && parses_as_iri(text)
}

/// `ikigai_core::Iri::parse`. Claimed: whether a text is accepted depends on
/// the text alone, and none without a colon is.
#[verifier::external_body]
pub(crate) fn parse_iri(text: &str) -> (accepted: bool)
    ensures
        accepted == (text@.contains(':') && parses_as_iri(text@)),
{
    ikigai_core::Iri::parse(text).is_ok()
}

/// A call of an endpoint.
#[derive(Debug)]
pub struct Invocation {
    pub arguments: Arguments,
    pub capability: Capability,
}

/// A call that waits for its key: the text to work on, and the IRI of the
/// resource that holds the key. The key is to be read from there and nowhere
/// else.
#[derive(Debug, PartialEq, Eq)]
pub struct Pending {
    pub input: String,
    pub key: String,
}

/// What a [`Pending`] call holds.
pub struct PendingView {
    pub input: Seq<char>,
    pub key: Seq<char>,
}

impl View for Pending {
    type V = PendingView;

    open spec fn view(&self) -> PendingView {
        PendingView { input: self.input@, key: self.key@ }
    }
}

/// What a text or an error says.
pub open spec fn text_outcome(result: Result<String, Error>) -> Result<
    Seq<char>,
    ErrorView,
> {
    match result {
        Ok(text) => Ok(text@),
        Err(error) => Err(error@),
    }
}

/// What a pending call or an error says.
pub open spec fn pending_outcome(result: Result<Pending, Error>) -> Result<
    PendingView,
    ErrorView,
> {
    match result {
        Ok(pending) => Ok(pending@),
        Err(error) => Err(error@),
    }
}

/// The text to work on: the argument `in`, or the piped `content` in its
/// place.
pub open spec fn input_of(arguments: Map<Seq<char>, ArgView>) -> Result<
    Seq<char>,
    ErrorView,
> {
    match inline_text(arguments, "in"@) {
        Some(text) => Ok(text),
        None => match inline_text(arguments, "content"@) {
            Some(text) => Ok(text),
            None => Err(ErrorView::MissingArgument("in"@)),
        },
    }
}

/// Why an argument that is no IRI is refused. The text is the same for every
/// such argument.
pub open spec fn not_an_iri(arg: Seq<char>, who: Seq<char>) -> Seq<char> {
    who + ": `"@ + arg
        + "` must be an IRI naming a key resource (a `urn:file:`, a `urn:secret:*`); the key itself is never passed by value"@
}

/// The IRI of the key resource that the argument `arg` names.
pub open spec fn key_iri_of(
    arguments: Map<Seq<char>, ArgView>,
    arg: Seq<char>,
    who: Seq<char>,
) -> Result<Seq<char>, ErrorView> {
    match inline_text(arguments, arg) {
        None => Err(ErrorView::MissingArgument(arg)),
        Some(uri) => if is_iri(uri) {
            Ok(uri)
        } else {
            Err(
                ErrorView::InvalidArgument {
                    name: arg,
                    detail: not_an_iri(arg, who),
                },
            )
        },
    }
}

/// The text of a key resource that served `bytes`.
pub open spec fn key_text_of(bytes: Seq<u8>, who: Seq<char>) -> Result<
    Seq<char>,
    ErrorView,
> {
    if valid_utf8(bytes) {
        Ok(decode_utf8(bytes))
    } else {
        Err(ErrorView::Endpoint(who + ": key resource is not UTF-8 text"@))
    }
}

/// A call that waits for its key, or why it cannot.
pub open spec fn pending_of(
    arguments: Map<Seq<char>, ArgView>,
    arg: Seq<char>,
    who: Seq<char>,
) -> Result<PendingView, ErrorView> {
    match input_of(arguments) {
        Err(error) => Err(error),
        Ok(input) => match key_iri_of(arguments, arg, who) {
            Err(error) => Err(error),
            Ok(key) => Ok(PendingView { input, key }),
        },
    }
}

/// Reads the text to work on: `in`, or else `content`. Where neither is there,
/// the argument reported missing is `in`.
pub fn read_input(arguments: &Arguments) -> (input: Result<String, Error>)
    ensures
        text_outcome(input) == input_of(arguments@),
{
    match arguments.inline_str("in") {
        Some(text) => Ok(text),
        None => match arguments.inline_str("content") {
            Some(text) => Ok(text),
            None => Err(Error::MissingArgument("in".to_string())),
        },
    }
}

/// Finds the IRI of the key resource in the argument `arg`. A value that is no
/// IRI may be the key itself, so the error does not repeat it.
pub fn resolve_key(arguments: &Arguments, arg: &str, who: &str) -> (iri: Result<String, Error>)
    ensures
        text_outcome(iri) == key_iri_of(arguments@, arg@, who@),
{
    match arguments.inline_str(arg) {
        None => Err(Error::MissingArgument(arg.to_string())),
        Some(uri) => if parse_iri(uri.as_str()) {
            Ok(uri)
        } else {
            Err(
                Error::InvalidArgument {
                    name: arg.to_string(),
                    detail: who.to_string().concat(": `").concat(arg).concat(
                        "` must be an IRI naming a key resource (a `urn:file:`, a `urn:secret:*`); the key itself is never passed by value",
                    ),
                },
            )
        },
    }
}

/// Takes the bytes that the key resource served as text.
pub fn key_text(bytes: Vec<u8>, who: &str) -> (text: Result<String, Error>)
    ensures
        text_outcome(text) == key_text_of(bytes@, who@),
{
    match utf8_text(bytes) {
        Some(text) => Ok(text),
        None => Err(Error::Endpoint(who.to_string().concat(": key resource is not UTF-8 text"))),
    }
}

/// Reads what a call must give before its key is read.
pub(crate) fn await_key(arguments: &Arguments, arg: &str, who: &str) -> (pending: Result<
    Pending,
    Error,
>)
    ensures
        pending_outcome(pending) == pending_of(arguments@, arg@, who@),
{
    match read_input(arguments) {
        Err(error) => Err(error),
        Ok(input) => match resolve_key(arguments, arg, who) {
            Err(error) => Err(error),
            Ok(key) => Ok(Pending { input, key }),
        },
    }
}

} // verus!
