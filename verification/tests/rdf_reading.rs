use cottas_rs::{
    CREATE_QUADS, INSERT_QUAD,
    extract_format, graph_column, parse_rdf_file, plan_conversion, quad_row, rdf2cottas, rows_of,
    statement_line, CottasError, GraphTerm, QuadRow, QuadTerms, RdfSyntax,
};

const TRIPLES: &str = "<http://ex/a> <http://ex/p> <http://ex/b> .\n\
<http://ex/a> <http://ex/q> \"O'Brien\" .\n\
<http://ex/b> <http://ex/p> \"chat\"@fr .\n";

fn row(s: &str, p: &str, o: &str, g: Option<&str>) -> QuadRow {
    (s.to_string(), p.to_string(), o.to_string(), g.map(|g| g.to_string()))
}

#[test]
fn extensions_select_formats() {
    assert_eq!(extract_format("data.ttl"), Some("turtle"));
    assert_eq!(extract_format("data.nt"), Some("nt"));
    assert_eq!(extract_format("data.nq"), Some("nq"));
    assert_eq!(extract_format("data.trig"), Some("trig"));
    assert_eq!(extract_format("data.rdf"), Some("xml"));
    assert_eq!(extract_format("data.xml"), Some("xml"));
    assert_eq!(extract_format("/some/dir.nt/data.ttl"), Some("turtle"));
    assert_eq!(extract_format(".nt"), Some("nt"));
}

#[test]
fn other_extensions_select_none() {
    for path in ["", "data", "data.txt", "data.cottas", "data.TTL", "data.ttl.gz", "ttl", "data.n", "nt"] {
        assert_eq!(extract_format(path), None, "{path}");
    }
}

#[test]
fn format_names_are_known() {
    assert_eq!(RdfSyntax::from_name("turtle"), Some(RdfSyntax::Turtle));
    assert_eq!(RdfSyntax::from_name("nt"), Some(RdfSyntax::NTriples));
    assert_eq!(RdfSyntax::from_name("nq"), Some(RdfSyntax::NQuads));
    assert_eq!(RdfSyntax::from_name("trig"), Some(RdfSyntax::TriG));
    assert_eq!(RdfSyntax::from_name("xml"), Some(RdfSyntax::RdfXml));
    assert_eq!(RdfSyntax::from_name("ttl"), None);
    assert_eq!(RdfSyntax::from_name(""), None);
}

#[test]
fn every_selected_format_is_known() {
    for path in ["a.ttl", "a.nt", "a.nq", "a.trig", "a.rdf", "a.xml"] {
        let name = extract_format(path).unwrap();
        assert!(RdfSyntax::from_name(name).is_some(), "{path}");
    }
}

#[test]
fn n_triples_become_rows_without_graph() {
    let rows = parse_rdf_file("data.nt", TRIPLES.as_bytes()).unwrap();
    assert_eq!(
        rows,
        vec![
            row("<http://ex/a>", "<http://ex/p>", "<http://ex/b>", None),
            row("<http://ex/a>", "<http://ex/q>", "\"O'Brien\"", None),
            row("<http://ex/b>", "<http://ex/p>", "\"chat\"@fr", None),
        ]
    );
}

#[test]
fn turtle_is_read_by_its_extension() {
    let text = "@prefix ex: <http://ex/> .\nex:a ex:p ex:b , ex:c .\n";
    let rows = parse_rdf_file("data.ttl", text.as_bytes()).unwrap();
    assert_eq!(
        rows,
        vec![
            row("<http://ex/a>", "<http://ex/p>", "<http://ex/b>", None),
            row("<http://ex/a>", "<http://ex/p>", "<http://ex/c>", None),
        ]
    );
}

#[test]
fn rdf_xml_is_read_by_either_extension() {
    let text = "<?xml version=\"1.0\"?>\n\
<rdf:RDF xmlns:rdf=\"http://www.w3.org/1999/02/22-rdf-syntax-ns#\" xmlns:ex=\"http://ex/\">\n\
<rdf:Description rdf:about=\"http://ex/a\"><ex:p rdf:resource=\"http://ex/b\"/></rdf:Description>\n\
</rdf:RDF>\n";
    let expected = vec![row("<http://ex/a>", "<http://ex/p>", "<http://ex/b>", None)];
    assert_eq!(parse_rdf_file("data.rdf", text.as_bytes()).unwrap(), expected);
    assert_eq!(parse_rdf_file("data.xml", text.as_bytes()).unwrap(), expected);
}

#[test]
fn named_graphs_fill_the_graph_column() {
    let text = "<http://ex/a> <http://ex/p> <http://ex/b> <http://ex/g> .\n\
<http://ex/a> <http://ex/p> <http://ex/c> .\n";
    let rows = parse_rdf_file("data.nq", text.as_bytes()).unwrap();
    assert_eq!(
        rows,
        vec![
            row("<http://ex/a>", "<http://ex/p>", "<http://ex/b>", Some("<http://ex/g>")),
            row("<http://ex/a>", "<http://ex/p>", "<http://ex/c>", None),
        ]
    );
}

#[test]
fn trig_graphs_fill_the_graph_column() {
    let text = "<http://ex/g> { <http://ex/a> <http://ex/p> \"x\" . }\n";
    let rows = parse_rdf_file("data.trig", text.as_bytes()).unwrap();
    assert_eq!(rows, vec![row("<http://ex/a>", "<http://ex/p>", "\"x\"", Some("<http://ex/g>"))]);
}

#[test]
fn a_blank_graph_is_marked_once() {
    let text = "<http://ex/a> <http://ex/p> <http://ex/b> _:g1 .\n";
    let rows = parse_rdf_file("f.nq", text.as_bytes()).unwrap();
    assert_eq!(rows.len(), 1);
    assert_eq!(rows[0].3, Some("_:g1".to_string()));
    let text = "<http://ex/a> <http://ex/p> _:o1 _:g1 .\n";
    let rows = parse_rdf_file("data.nq", text.as_bytes()).unwrap();
    assert_eq!(rows, vec![row("<http://ex/a>", "<http://ex/p>", "_:o1", Some("_:g1"))]);
}

#[test]
fn a_blank_node_reads_the_same_in_every_column() {
    let text = "_:b1 <http://ex/p> _:b1 _:b1 .\n";
    let rows = parse_rdf_file("data.nq", text.as_bytes()).unwrap();
    assert_eq!(rows, vec![row("_:b1", "<http://ex/p>", "_:b1", Some("_:b1"))]);
    assert_eq!(Some(rows[0].0.clone()), rows[0].3);
    assert_eq!(Some(rows[0].2.clone()), rows[0].3);
}

#[test]
fn rows_written_as_lines_are_read_back_as_the_same_rows() {
    let text = "<http://ex/a> <http://ex/p> \"O'Brien\"@en <http://ex/g> .\n\
_:s <http://ex/p> _:o _:g .\n\
<http://ex/a> <http://ex/q> \"1\"^^<http://www.w3.org/2001/XMLSchema#integer> .\n";
    let rows = parse_rdf_file("data.nq", text.as_bytes()).unwrap();
    assert_eq!(rows.len(), 3);
    let mut written = String::new();
    for quad in &rows {
        written.push_str(&statement_line(quad));
        written.push('\n');
    }
    assert_eq!(written, text);
    assert_eq!(parse_rdf_file("again.nq", written.as_bytes()), Ok(rows));
}

#[test]
fn an_unsupported_extension_is_refused_before_parsing() {
    assert_eq!(
        parse_rdf_file("data.txt", TRIPLES.as_bytes()),
        Err(CottasError::UnsupportedFormat)
    );
    assert_eq!(
        parse_rdf_file("data.jsonld", b"this is not RDF at all"),
        Err(CottasError::UnsupportedFormat)
    );
}

#[test]
fn malformed_rdf_is_a_parse_failure() {
    let result = parse_rdf_file("data.nt", b"<http://ex/a> <http://ex/p> .\n");
    assert!(matches!(result, Err(CottasError::ParseFailure(_))), "{result:?}");
    let result = parse_rdf_file("data.nt", b"<http://ex/a> <http://ex/p> <http://ex/b> <http://ex/g> .\n");
    assert!(matches!(result, Err(CottasError::ParseFailure(_))), "{result:?}");
}

#[test]
fn the_format_goes_by_the_extension_not_by_the_content() {
    let result = parse_rdf_file("data.rdf", TRIPLES.as_bytes());
    assert!(matches!(result, Err(CottasError::ParseFailure(_))), "{result:?}");
}

#[test]
fn an_empty_file_has_no_rows() {
    assert_eq!(parse_rdf_file("data.nt", b""), Ok(vec![]));
}

#[test]
fn conversion_of_triples() {
    let plan = rdf2cottas("data.nt", TRIPLES.as_bytes(), "out.cottas", "spo").unwrap();
    assert_eq!(plan.quads.len(), 3);
    assert!(plan.quads.iter().all(|quad| quad.3.is_none()));
    assert!(!plan.quad_mode);
    assert_eq!(
        plan.export,
        "COPY (SELECT DISTINCT s, p, o FROM quads ORDER BY s, p, o) TO 'out.cottas' \
(FORMAT PARQUET, COMPRESSION ZSTD, COMPRESSION_LEVEL 22, PARQUET_VERSION v2, KV_METADATA {index: 'spo'})"
    );
}

#[test]
fn conversion_of_quads() {
    let text = "<http://ex/a> <http://ex/p> <http://ex/b> .\n\
<http://ex/a> <http://ex/p> <http://ex/c> <http://ex/g> .\n";
    let plan = rdf2cottas("data.nq", text.as_bytes(), "out.cottas", "pos").unwrap();
    assert!(plan.quad_mode);
    assert_eq!(plan.quads.len(), 2);
    assert_eq!(
        plan.export,
        "COPY (SELECT DISTINCT s, p, o, g FROM quads ORDER BY p, o, s, g) TO 'out.cottas' \
(FORMAT PARQUET, COMPRESSION ZSTD, COMPRESSION_LEVEL 22, PARQUET_VERSION v2, KV_METADATA {index: 'pos'})"
    );
}

#[test]
fn conversion_refuses_an_invalid_label_first() {
    assert_eq!(
        rdf2cottas("data.nt", TRIPLES.as_bytes(), "out.cottas", "ssp"),
        Err(CottasError::InvalidIndexLabel)
    );
    assert_eq!(
        rdf2cottas("data.txt", b"no RDF", "out.cottas", ""),
        Err(CottasError::InvalidIndexLabel)
    );
}

#[test]
fn conversion_refuses_an_unsupported_extension() {
    assert_eq!(
        rdf2cottas("data.csv", TRIPLES.as_bytes(), "out.cottas", "spo"),
        Err(CottasError::UnsupportedFormat)
    );
}

#[test]
fn conversion_reports_malformed_rdf() {
    let result = rdf2cottas("data.ttl", b"<a> <b> ", "out.cottas", "spo");
    assert!(matches!(result, Err(CottasError::ParseFailure(_))), "{result:?}");
}

#[test]
fn plan_of_given_rows() {
    let rows = vec![
        row("<a>", "<p>", "<b>", None),
        row("<a>", "<p>", "<c>", Some("<g>")),
        row("<a>", "<p>", "<d>", None),
    ];
    let plan = plan_conversion(rows.clone(), "t.cottas", "osp");
    assert_eq!(plan.quads, rows);
    assert!(plan.quad_mode);
    assert!(plan.export.starts_with("COPY (SELECT DISTINCT s, p, o, g FROM quads ORDER BY o, s, p, g) TO 't.cottas' "));
    let plan = plan_conversion(vec![], "t.cottas", "osp");
    assert!(!plan.quad_mode);
    assert!(plan.export.starts_with("COPY (SELECT DISTINCT s, p, o FROM quads ORDER BY o, s, p) TO 't.cottas' "));
}

fn statement(s: &str, p: &str, o: &str, graph: GraphTerm) -> QuadTerms {
    QuadTerms { subject: s.to_string(), predicate: p.to_string(), object: o.to_string(), graph }
}

#[test]
fn graph_column_of_each_kind_of_graph() {
    assert_eq!(graph_column(GraphTerm::Default), None);
    assert_eq!(
        graph_column(GraphTerm::Named("<http://ex/g>".to_string())),
        Some("<http://ex/g>".to_string())
    );
    assert_eq!(graph_column(GraphTerm::Blank("_:b0".to_string())), Some("_:b0".to_string()));
    assert_eq!(graph_column(GraphTerm::Blank(String::new())), Some(String::new()));
}

#[test]
fn row_of_a_statement() {
    assert_eq!(
        quad_row(statement("<a>", "<p>", "\"o\"", GraphTerm::Default)),
        row("<a>", "<p>", "\"o\"", None)
    );
    assert_eq!(
        quad_row(statement("_:s", "<p>", "<o>", GraphTerm::Named("<g>".to_string()))),
        row("_:s", "<p>", "<o>", Some("<g>"))
    );
}

#[test]
fn rows_keep_the_order_of_the_statements() {
    let rows = rows_of(vec![
        statement("<a>", "<p>", "<1>", GraphTerm::Default),
        statement("<b>", "<p>", "<2>", GraphTerm::Blank("_:g".to_string())),
        statement("<c>", "<p>", "<3>", GraphTerm::Named("<g>".to_string())),
    ]);
    assert_eq!(
        rows,
        vec![
            row("<a>", "<p>", "<1>", None),
            row("<b>", "<p>", "<2>", Some("_:g")),
            row("<c>", "<p>", "<3>", Some("<g>")),
        ]
    );
    assert_eq!(rows_of(vec![]), vec![]);
}

#[test]
fn a_row_as_a_line() {
    assert_eq!(statement_line(&row("<a>", "<p>", "\"o\"@en", None)), "<a> <p> \"o\"@en .");
    assert_eq!(statement_line(&row("<a>", "<p>", "<o>", Some("<g>"))), "<a> <p> <o> <g> .");
}

#[test]
fn the_loading_table_has_the_four_columns() {
    assert_eq!(CREATE_QUADS, "CREATE TABLE quads (s TEXT, p TEXT, o TEXT, g TEXT)");
    assert_eq!(INSERT_QUAD, "INSERT INTO quads (s, p, o, g) VALUES (?, ?, ?, ?)");
}
