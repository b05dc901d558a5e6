//! What an endpoint answers with: typed bytes and how long they stay valid.
use vstd::prelude::*;

use crate::error::{Error, ErrorView};

verus! {

/// How long a representation may be served from a cache.
#[derive(Clone, Copy, Debug, PartialEq, Eq)]
pub enum Expiry {
    /// Never cached: expired as soon as it is made.
    Always,
    /// Cacheable for good, as far as the endpoint itself can tell.
    Never,
}

/// A media type with its parameters.
#[derive(Debug, PartialEq, Eq)]
pub struct ReprType {
    pub media_type: String,
    pub params: Vec<(String, String)>,
}

/// What a [`ReprType`] says.
pub struct ReprTypeView {
    pub media_type: Seq<char>,
    pub params: Seq<(Seq<char>, Seq<char>)>,
}

impl View for ReprType {
    type V = ReprTypeView;

    open spec fn view(&self) -> ReprTypeView {
        ReprTypeView {
            media_type: self.media_type@,
            params: self.params@.map_values(|param: (String, String)| (param.0@, param.1@)),
        }
    }
}

impl ReprTypeView {
    /// The type on one line: the media type, then each parameter behind a
    /// semicolon, its name and its value joined by an equals sign.
    pub open spec fn canonical(self) -> Seq<char>
        decreases self.params.len(),
    {
        if self.params.len() == 0 {
            self.media_type
        } else {
            let before = ReprTypeView { params: self.params.drop_last(), ..self };
            before.canonical() + ";"@ + self.params.last().0 + "="@ + self.params.last().1
        }
    }
}

/// Bytes of some type. It depends on no thread of its own: what it was made
/// from decides when it must be made again.
#[derive(Debug, PartialEq, Eq)]
pub struct Representation {
    pub repr_type: ReprType,
    pub bytes: Vec<u8>,
    pub expiry: Expiry,
}

/// What a [`Representation`] holds.
pub struct RepresentationView {
    pub repr_type: ReprTypeView,
    pub bytes: Seq<u8>,
    pub expiry: Expiry,
}

impl View for Representation {
    type V = RepresentationView;

    open spec fn view(&self) -> RepresentationView {
        RepresentationView {
            repr_type: self.repr_type@,
            bytes: self.bytes@,
            expiry: self.expiry,
        }
    }
}

/// What a result says.
pub open spec fn outcome(
    result: Result<Representation, crate::error::Error>,
) -> Result<RepresentationView, ErrorView> {
    match result {
        Ok(repr) => Ok(repr@),
        Err(error) => Err(error@),
    }
}

} // verus!
