//! How an endpoint describes itself to those who may call it.
use vstd::prelude::*;

use crate::text;

verus! {

/// The class of an argument that names a key resource.
pub const RDFS_RESOURCE: &'static str = "http://www.w3.org/2000/01/rdf-schema#Resource";

/// The class of an argument that holds text.
pub const XSD_STRING: &'static str = "http://www.w3.org/2001/XMLSchema#string";

/// What can be asked of an endpoint.
#[derive(Clone, Copy, Debug, PartialEq, Eq)]
pub enum Verb {
    /// Do the work and give the result.
    Source,
    /// Describe yourself.
    Meta,
}

/// An argument that an endpoint takes.
#[derive(Debug, PartialEq, Eq)]
pub struct ArgSpec {
    pub name: String,
    pub summary: String,
    pub required: bool,
    pub class: String,
}

/// What an [`ArgSpec`] says.
pub struct ArgSpecView {
    pub name: Seq<char>,
    pub summary: Seq<char>,
    pub required: bool,
    pub class: Seq<char>,
}

impl View for ArgSpec {
    type V = ArgSpecView;

    open spec fn view(&self) -> ArgSpecView {
        ArgSpecView {
            name: self.name@,
            summary: self.summary@,
            required: self.required,
            class: self.class@,
        }
    }
}

impl ArgSpec {
    /// An argument that every call must give.
    pub fn required(name: &str, summary: &str, class: &str) -> (r: ArgSpec)
        ensures
            r@ == (ArgSpecView { name: name@, summary: summary@, required: true, class: class@ }),
    {
        ArgSpec {
            name: name.to_string(),
            summary: summary.to_string(),
            required: true,
            class: class.to_string(),
        }
    }
}

/// What an endpoint does and takes, what it asks of its caller, and what it
/// serves.
#[derive(Debug, PartialEq, Eq)]
pub struct Description {
    pub id: String,
    pub title: String,
    pub summary: String,
    pub verbs: Vec<Verb>,
    pub requires: Vec<String>,
    pub inputs: Vec<ArgSpec>,
    pub outputs: Vec<String>,
}

/// What a [`Description`] says.
pub struct DescriptionView {
    pub id: Seq<char>,
    pub title: Seq<char>,
    pub summary: Seq<char>,
    pub verbs: Seq<Verb>,
    pub requires: Seq<Seq<char>>,
    pub inputs: Seq<ArgSpecView>,
    pub outputs: Seq<Seq<char>>,
}

impl View for Description {
    type V = DescriptionView;

    open spec fn view(&self) -> DescriptionView {
        DescriptionView {
            id: self.id@,
            title: self.title@,
            summary: self.summary@,
            verbs: self.verbs@,
            requires: text::views(self.requires@),
            inputs: self.inputs@.map_values(|input: ArgSpec| input@),
            outputs: text::views(self.outputs@),
        }
    }
}

} // verus!
