//! Pattern translation and index model for Cottas, a columnar store of RDF
//! triples and quads.
//!
//! The library computes; it touches neither files nor the query engine. It
//! parses patterns, validates index labels, and writes the text of the
//! statements that a query engine is to run.

pub mod convert;
pub mod error;
pub mod format;
pub mod index;
pub mod info;
pub mod pattern;
pub mod planner;
pub mod rdf;
pub mod text;
pub mod translate;

pub use convert::{plan_conversion, rdf2cottas, Conversion, CREATE_QUADS, INSERT_QUAD};
pub use error::CottasError;
pub use format::{extract_format, RdfSyntax};
pub use index::{build_order_by, is_valid_index, ordering_clause};
pub use info::{columns_query, describe, info_queries, Counts, FileFacts, InfoQueries, Metadata};
pub use pattern::{parse_triple_pattern, Pattern};
pub use planner::{cat, diff, export_to_cottas, has_column, verify, Plan};
pub use rdf::{
    graph_column, parse_rdf_file, quad_row, rows_of, statement_line, GraphTerm, QuadRow, QuadTerms,
};
pub use translate::{escape, translate, translate_pattern, translate_triple_pattern};
