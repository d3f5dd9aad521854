//! Reading RDF text into rows of terms, ready to be loaded into a table.

use vstd::prelude::*;
use crate::error::CottasError;
use crate::format::{extract_format, format_of, lemma_format_has_syntax, RdfSyntax};

verus! {

/// One statement as the table holds it: subject, predicate, object and, for a
/// statement of a named graph, the graph.
pub type QuadRow = (String, String, String, Option<String>);

/// The graph that a statement belongs to. The field of a variant is the whole
/// written form of the term, as it would stand in a line of N-Quads, marks
/// included: nothing is to be set before or after it.
#[derive(Debug, Clone, PartialEq, Eq)]
pub enum GraphTerm {
    /// A graph named by an IRI; the field is the IRI between `<` and `>`.
    Named(String),
    /// A graph named by a blank node; the field is the mark `_:` followed by
    /// the label, so that the node reads the same here as where it stands as a
    /// subject or an object.
    Blank(String),
    /// The default graph.
    Default,
}

/// The terms of one parsed statement, each in its whole written form, that
/// of a line of N-Triples or N-Quads.
#[derive(Debug, Clone, PartialEq, Eq)]
pub struct QuadTerms {
    pub subject: String,
    pub predicate: String,
    pub object: String,
    pub graph: GraphTerm,
}

/// The `Quad` of oxrdf: one parsed statement. It is carried from the parser to
/// `quad_terms` and not looked into.
#[verifier::external_type_specification]
#[verifier::external_body]
pub struct ExQuad(oxrdf::Quad);

/// The `RdfParseError` of oxrdfio: why a text could not be parsed. It is
/// carried from the parser to `parse_error_text` and not looked into.
#[verifier::external_type_specification]
#[verifier::external_body]
pub struct ExRdfParseError(oxrdfio::RdfParseError);

/// Runs oxrdfio's `RdfParser::from_format(..).for_reader(..)` over `data` and
/// collects the statements, or stops at the first error. Nothing is claimed of
/// the outcome: it is the parser's, and for a text with unnamed blank nodes it
/// differs from run to run by the labels that the parser makes up.
#[verifier::external_body]
fn read_quads(syntax: RdfSyntax, data: &[u8]) -> (r: Result<
    Vec<oxrdf::Quad>,
    oxrdfio::RdfParseError,
>) {
    let format = match syntax {
        RdfSyntax::Turtle => oxrdfio::RdfFormat::Turtle,
        RdfSyntax::NTriples => oxrdfio::RdfFormat::NTriples,
        RdfSyntax::NQuads => oxrdfio::RdfFormat::NQuads,
        RdfSyntax::TriG => oxrdfio::RdfFormat::TriG,
        RdfSyntax::RdfXml => oxrdfio::RdfFormat::RdfXml,
    };
    oxrdfio::RdfParser::from_format(format).for_reader(data).collect()
}

/// The terms of an oxrdf `Quad`, each written by the `Display` impl of oxrdf
/// (`to_string`), which gives the whole written form: an IRI between `<` and
/// `>`, a blank node as `_:` and its label, in the graph as in the subject and
/// the object. Nothing is claimed of the texts.
#[verifier::external_body]
fn quad_terms(quad: &oxrdf::Quad) -> (r: QuadTerms) {
    QuadTerms {
        subject: quad.subject.to_string(),
        predicate: quad.predicate.to_string(),
        object: quad.object.to_string(),
        graph: match &quad.graph_name {
            oxrdf::GraphName::NamedNode(node) => GraphTerm::Named(node.to_string()),
            oxrdf::GraphName::BlankNode(node) => GraphTerm::Blank(node.to_string()),
            oxrdf::GraphName::DefaultGraph => GraphTerm::Default,
        },
    }
}

/// The message of an oxrdfio `RdfParseError`, written by its `Display` impl.
#[verifier::external_body]
fn parse_error_text(error: &oxrdfio::RdfParseError) -> (r: String) {
    error.to_string()
}

/// What the graph column holds for a statement of `graph`: the written form
/// of the graph's name, whether IRI or blank node, as it is; nothing for the
/// default graph.
pub open spec fn graph_text(graph: GraphTerm) -> Option<Seq<char>> {
    match graph {
        GraphTerm::Named(text) => Some(text@),
        GraphTerm::Blank(text) => Some(text@),
        GraphTerm::Default => None,
    }
}

/// What the four columns hold for a statement.
pub open spec fn row_view(row: QuadRow) -> (Seq<char>, Seq<char>, Seq<char>, Option<Seq<char>>) {
    (
        row.0@,
        row.1@,
        row.2@,
        match row.3 {
            Some(g) => Some(g@),
            None => None,
        },
    )
}

/// The row that stands for the statement `terms`.
pub open spec fn row_of_terms(terms: QuadTerms) -> (
    Seq<char>,
    Seq<char>,
    Seq<char>,
    Option<Seq<char>>,
) {
    (terms.subject@, terms.predicate@, terms.object@, graph_text(terms.graph))
}

/// The statement of `row` as a line of N-Triples or, with a graph, N-Quads.
pub open spec fn line_text(row: QuadRow) -> Seq<char> {
    row.0@ + " "@ + row.1@ + " "@ + row.2@ + match row.3 {
        Some(graph) => " "@ + graph@,
        None => Seq::empty(),
    } + " ."@
}

/// Some row belongs to a named graph.
pub open spec fn has_graph(rows: Seq<QuadRow>) -> bool {
    exists|i: int| 0 <= i < rows.len() && (#[trigger] rows[i]).3 is Some
}

/// The text of the graph column for a statement of `graph`: the written form
/// of a graph's name, unchanged, and nothing for the default graph.
pub fn graph_column(graph: GraphTerm) -> (r: Option<String>)
    ensures
        match r {
            Some(text) => graph_text(graph) == Some(text@),
            None => graph_text(graph) is None,
        },
        r == match graph {
            GraphTerm::Named(text) => Some(text),
            GraphTerm::Blank(text) => Some(text),
            GraphTerm::Default => None,
        },
{
    match graph {
        GraphTerm::Named(text) => Some(text),
        GraphTerm::Blank(text) => Some(text),
        GraphTerm::Default => None,
    }
}

/// The row of the table that stands for one statement.
pub fn quad_row(terms: QuadTerms) -> (r: QuadRow)
    ensures
        row_view(r) == row_of_terms(terms),
{
    let QuadTerms { subject, predicate, object, graph } = terms;
    (subject, predicate, object, graph_column(graph))
}

/// The rows of the table that stand for `statements`, one for each, in order.
pub fn rows_of(statements: Vec<QuadTerms>) -> (r: Vec<QuadRow>)
    ensures
        r.len() == statements.len(),
        forall|i: int| 0 <= i < r.len() ==> row_view(#[trigger] r[i]) == row_of_terms(statements[i]),
{
    let ghost all = statements@;
    let mut rows: Vec<QuadRow> = Vec::new();
    for terms in it: statements.into_iter()
        invariant
            it.seq() == all,
            rows.len() == it.index(),
            forall|i: int| 0 <= i < rows.len() ==> row_view(#[trigger] rows[i]) == row_of_terms(all[i]),
    {
        rows.push(quad_row(terms));
    }
    rows
}

/// Writes the statement of `row` as one line, without the line break: the
/// terms with a space between each two, then a space and a full stop.
pub fn statement_line(row: &QuadRow) -> (r: String)
    ensures
        r@ == line_text(*row),
{
    let mut line = String::new();
    line.append(row.0.as_str());
    line.append(" ");
    line.append(row.1.as_str());
    line.append(" ");
    line.append(row.2.as_str());
    match &row.3 {
        Some(graph) => {
            line.append(" ");
            line.append(graph.as_str());
        },
        None => {},
    }
    line.append(" .");
    line
}

/// Tells whether any of `rows` belongs to a named graph.
pub fn any_graph(rows: &Vec<QuadRow>) -> (r: bool)
    ensures
        r == has_graph(rows@),
{
    let mut i: usize = 0;
    while i < rows.len()
        invariant
            i <= rows.len(),
            forall|j: int| 0 <= j < i ==> (#[trigger] rows@[j]).3 is None,
        decreases rows.len() - i,
    {
        if rows[i].3.is_some() {
            return true;
        }
        i += 1;
    }
    false
}

/// Parses the RDF text `data`, which was read from the file at `path`, into
/// rows. The extension of `path` selects the serialization; an extension that
/// selects none is refused before any parsing. The rows, or the failure on
/// malformed text, are those of the RDF parser.
pub fn parse_rdf_file(path: &str, data: &[u8]) -> (r: Result<Vec<QuadRow>, CottasError>)
    ensures
        format_of(path@) is None <==> r == Err::<Vec<QuadRow>, CottasError>(
            CottasError::UnsupportedFormat,
        ),
        format_of(path@) is Some ==> r is Ok || r matches Err(CottasError::ParseFailure(_)),
{
    let name = match extract_format(path) {
        Some(name) => name,
        None => {
            return Err(CottasError::UnsupportedFormat);
        },
    };
    proof {
        lemma_format_has_syntax(path@);
    }
    let syntax = match RdfSyntax::from_name(name) {
        Some(syntax) => syntax,
        None => {
            return Err(CottasError::UnsupportedFormat);
        },
    };
    match read_quads(syntax, data) {
        Ok(quads) => {
            let mut statements: Vec<QuadTerms> = Vec::new();
            let mut i: usize = 0;
            while i < quads.len()
                invariant
                    i <= quads.len(),
                decreases quads.len() - i,
            {
                statements.push(quad_terms(&quads[i]));
                i += 1;
            }
            Ok(rows_of(statements))
        },
        Err(error) => Err(CottasError::ParseFailure(parse_error_text(&error))),
    }
}

} // verus!
