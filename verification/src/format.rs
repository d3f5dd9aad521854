//! RDF serializations and the file extensions that select them.

use vstd::prelude::*;
use crate::text::{chars_of, ends_with, has_suffix, same_text};

verus! {

/// The RDF serializations that can be read.
#[derive(Debug, Clone, Copy, PartialEq, Eq, Structural)]
pub enum RdfSyntax {
    Turtle,
    NTriples,
    NQuads,
    TriG,
    RdfXml,
}

/// The name of the serialization that the extension of `path` selects, if any.
pub open spec fn format_of(path: Seq<char>) -> Option<Seq<char>> {
    if has_suffix(path, ".ttl"@) {
        Some("turtle"@)
    } else if has_suffix(path, ".nt"@) {
        Some("nt"@)
    } else if has_suffix(path, ".nq"@) {
        Some("nq"@)
    } else if has_suffix(path, ".trig"@) {
        Some("trig"@)
    } else if has_suffix(path, ".rdf"@) || has_suffix(path, ".xml"@) {
        Some("xml"@)
    } else {
        None
    }
}

/// The serialization that goes by `name`, if any.
pub open spec fn syntax_named(name: Seq<char>) -> Option<RdfSyntax> {
    if name == "nt"@ {
        Some(RdfSyntax::NTriples)
    } else if name == "nq"@ {
        Some(RdfSyntax::NQuads)
    } else if name == "turtle"@ {
        Some(RdfSyntax::Turtle)
    } else if name == "trig"@ {
        Some(RdfSyntax::TriG)
    } else if name == "xml"@ {
        Some(RdfSyntax::RdfXml)
    } else {
        None
    }
}

/// Every name that an extension selects is the name of a serialization.
pub proof fn lemma_format_has_syntax(path: Seq<char>)
    ensures
        format_of(path) matches Some(name) ==> syntax_named(name) is Some,
{
}

/// The name of the serialization that the extension of `path` selects:
/// `turtle` for `.ttl`, `nt` for `.nt`, `nq` for `.nq`, `trig` for `.trig`, and
/// `xml` for `.rdf` and `.xml`. Any other path selects none.
pub fn extract_format(path: &str) -> (r: Option<&'static str>)
    ensures
        match r {
            Some(name) => format_of(path@) == Some(name@),
            None => format_of(path@) is None,
        },
{
    let p = chars_of(path);
    if ends_with(&p, ".ttl") {
        Some("turtle")
    } else if ends_with(&p, ".nt") {
        Some("nt")
    } else if ends_with(&p, ".nq") {
        Some("nq")
    } else if ends_with(&p, ".trig") {
        Some("trig")
    } else if ends_with(&p, ".rdf") || ends_with(&p, ".xml") {
        Some("xml")
    } else {
        None
    }
}

impl RdfSyntax {
    /// The serialization that goes by `name`.
    pub fn from_name(name: &str) -> (r: Option<RdfSyntax>)
        ensures
            r == syntax_named(name@),
    {
        if same_text(name, "nt") {
            Some(RdfSyntax::NTriples)
        } else if same_text(name, "nq") {
            Some(RdfSyntax::NQuads)
        } else if same_text(name, "turtle") {
            Some(RdfSyntax::Turtle)
        } else if same_text(name, "trig") {
            Some(RdfSyntax::TriG)
        } else if same_text(name, "xml") {
            Some(RdfSyntax::RdfXml)
        } else {
            None
        }
    }
}

} // verus!
