//! From RDF text to the plan of a stored table: the rows to load and the
//! statement that writes them out.

use vstd::prelude::*;
use crate::error::CottasError;
use crate::format::format_of;
use crate::index::{is_index_label, is_valid_index};
use crate::planner::{export_text, export_to_cottas};
use crate::rdf::{any_graph, has_graph, parse_rdf_file, QuadRow};

verus! {

/// The statement that sets up the table `quads`, into which the statements of
/// a file are loaded and from which an export reads.
pub const CREATE_QUADS: &'static str = "CREATE TABLE quads (s TEXT, p TEXT, o TEXT, g TEXT)";

/// The statement that loads one row into the table `quads`; its parameters
/// are subject, predicate, object and graph, the graph empty for a statement
/// of the default graph.
pub const INSERT_QUAD: &'static str = "INSERT INTO quads (s, p, o, g) VALUES (?, ?, ?, ?)";

/// What the conversion of one RDF file comes to: the rows to load into the
/// table `quads`, and the statement that then writes the stored table.
#[derive(Debug, Clone, PartialEq, Eq)]
pub struct Conversion {
    /// The statements of the file, one row each.
    pub quads: Vec<QuadRow>,
    /// Whether any statement belongs to a named graph, so that the table gets
    /// a graph column.
    pub quad_mode: bool,
    /// The statement that writes the table.
    pub export: String,
}

/// Plans the export of `quads` to the table at `cottas_file_path`, ordered by
/// `index`. The table gets a graph column exactly if some row has a graph.
pub fn plan_conversion(quads: Vec<QuadRow>, cottas_file_path: &str, index: &str) -> (r: Conversion)
    requires
        is_index_label(index@),
    ensures
        r.quads == quads,
        r.quad_mode == has_graph(quads@),
        r.export@ == export_text(index@, cottas_file_path@, has_graph(quads@)),
{
    let quad_mode = any_graph(&quads);
    let export = export_to_cottas(index, cottas_file_path, quad_mode);
    Conversion { quads, quad_mode, export }
}

/// Plans the conversion of the RDF text `data`, read from the file at
/// `rdf_file_path`, into a stored table at `cottas_file_path` ordered by
/// `index`.
///
/// A label that names no index is refused first, then an extension that
/// selects no serialization; after that the outcome is the RDF parser's.
pub fn rdf2cottas(rdf_file_path: &str, data: &[u8], cottas_file_path: &str, index: &str) -> (r:
    Result<Conversion, CottasError>)
    ensures
        match r {
            Ok(plan) => {
                &&& is_index_label(index@)
                &&& format_of(rdf_file_path@) is Some
                &&& plan.quad_mode == has_graph(plan.quads@)
                &&& plan.export@ == export_text(index@, cottas_file_path@, plan.quad_mode)
            },
            Err(CottasError::InvalidIndexLabel) => !is_index_label(index@),
            Err(CottasError::UnsupportedFormat) => is_index_label(index@) && format_of(
                rdf_file_path@,
            ) is None,
            Err(CottasError::ParseFailure(_)) => is_index_label(index@) && format_of(
                rdf_file_path@,
            ) is Some,
            Err(_) => false,
        },
{
    if !is_valid_index(index) {
        return Err(CottasError::InvalidIndexLabel);
    }
    match parse_rdf_file(rdf_file_path, data) {
        Ok(quads) => Ok(plan_conversion(quads, cottas_file_path, index)),
        Err(error) => Err(error),
    }
}

} // verus!
