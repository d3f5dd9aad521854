use cottas_rs::{parse_triple_pattern, CottasError, Pattern};

fn terms_of(text: &str) -> Vec<String> {
    parse_triple_pattern(text).unwrap().terms().clone()
}

#[test]
fn three_terms_make_a_triple_pattern() {
    assert_eq!(terms_of("?s <http://ex/p> ?o"), vec!["?s", "<http://ex/p>", "?o"]);
}

#[test]
fn four_terms_with_an_iri_last_make_a_quad_pattern() {
    let terms = terms_of("<http://ex/a> <http://ex/p> <http://ex/b> <http://ex/g>");
    assert_eq!(terms.len(), 4);
    assert_eq!(terms[3], "<http://ex/g>");
    assert_eq!(
        terms,
        vec!["<http://ex/a>", "<http://ex/p>", "<http://ex/b>", "<http://ex/g>"]
    );
}

#[test]
fn a_variable_last_is_a_graph_term() {
    assert_eq!(terms_of("?s ?p ?o ?g"), vec!["?s", "?p", "?o", "?g"]);
    assert_eq!(terms_of("?s ?p ?o $g"), vec!["?s", "?p", "?o", "$g"]);
    assert!(parse_triple_pattern("?s ?p ?o ?g").unwrap().is_quad());
    assert!(!parse_triple_pattern("?s ?p ?o").unwrap().is_quad());
}

#[test]
fn fewer_than_three_terms_are_malformed() {
    for text in ["", "   ", "?s", "?s ?p", "  ?s   ?p  ", "\t<a>\n<b>\r\n"] {
        assert_eq!(parse_triple_pattern(text).err(), Some(CottasError::MalformedPattern), "{text:?}");
    }
}

#[test]
fn an_object_may_hold_white_space() {
    assert_eq!(
        terms_of("?s <http://ex/p> \"hello big world\""),
        vec!["?s", "<http://ex/p>", "\"hello big world\""]
    );
    assert_eq!(
        terms_of("<a> <p> \"two  spaces\"@en"),
        vec!["<a>", "<p>", "\"two  spaces\"@en"]
    );
}

#[test]
fn white_space_inside_the_object_is_kept_as_written() {
    assert_eq!(terms_of("?s ?p \"a \t b\""), vec!["?s", "?p", "\"a \t b\""]);
}

#[test]
fn an_object_with_white_space_before_a_graph_term() {
    assert_eq!(
        terms_of("?s ?p \"hello world\" <http://ex/g>"),
        vec!["?s", "?p", "\"hello world\"", "<http://ex/g>"]
    );
    assert_eq!(
        terms_of("?s ?p \"hello world\"   \t ?g  "),
        vec!["?s", "?p", "\"hello world\"", "?g"]
    );
}

#[test]
fn white_space_around_the_terms_is_dropped() {
    assert_eq!(terms_of("  ?s\t<p>\n ?o \r\n"), vec!["?s", "<p>", "?o"]);
    assert_eq!(terms_of("\u{a0}?s\u{2003}?p\u{3000}?o\u{2028}"), vec!["?s", "?p", "?o"]);
}

#[test]
fn a_last_word_that_is_no_iri_or_variable_belongs_to_the_object() {
    assert_eq!(terms_of("?s ?p \"a\" \"b\""), vec!["?s", "?p", "\"a\" \"b\""]);
    assert_eq!(terms_of("?s ?p _:b1 _:b2"), vec!["?s", "?p", "_:b1 _:b2"]);
}

#[test]
fn a_literal_that_ends_like_a_variable_loses_its_last_word() {
    // The documented ambiguity: the last word is taken for a graph term.
    assert_eq!(
        terms_of("?s ?p \"what is ?this\""),
        vec!["?s", "?p", "\"what is", "?this\""]
    );
    assert_eq!(
        terms_of("?s ?p \"less <than\""),
        vec!["?s", "?p", "\"less", "<than\""]
    );
}

#[test]
fn the_subject_may_stand_again_in_the_object() {
    assert_eq!(terms_of("<a> <a> <a>"), vec!["<a>", "<a>", "<a>"]);
    assert_eq!(terms_of("ab a ab a b"), vec!["ab", "a", "ab a b"]);
    assert_eq!(terms_of("a ab \"ab a\""), vec!["a", "ab", "\"ab a\""]);
}

#[test]
fn the_object_is_what_removal_of_subject_and_predicate_leaves() {
    for text in [
        "?s <http://ex/p> ?o",
        "  <a>   <b>   \"c d  e\"  ",
        "ab a ab a b",
        "x x x x",
        "p pp ppp",
        "\t?s\t?p\t\"o\"\t",
    ] {
        let mut words = text.split_whitespace();
        let subject = words.next().unwrap();
        let predicate = words.next().unwrap();
        let left = text.replacen(subject, "", 1).replacen(predicate, "", 1);
        let expected = left.trim();
        let terms = terms_of(text);
        let last = text.split_whitespace().last().unwrap();
        if terms.len() == 4 {
            assert_eq!(terms[3], last);
            assert_eq!(terms[2], expected[..expected.len() - last.len()].trim());
        } else {
            assert_eq!(terms[2], expected);
        }
        assert_eq!(terms[0], subject);
        assert_eq!(terms[1], predicate);
    }
}

#[test]
fn pattern_of_three_or_four_terms() {
    let triple = Pattern::new(vec!["?s".to_string(), "?p".to_string(), "?o".to_string()]).unwrap();
    assert_eq!(triple.terms().len(), 3);
    assert!(!triple.is_quad());
    let quad = Pattern::new(vec![
        "?s".to_string(),
        "?p".to_string(),
        "?o".to_string(),
        "?g".to_string(),
    ])
    .unwrap();
    assert_eq!(quad.terms(), &vec!["?s", "?p", "?o", "?g"]);
    assert!(quad.is_quad());
}

#[test]
fn pattern_of_another_length_is_refused() {
    let mut terms: Vec<String> = Vec::new();
    for n in 0..7 {
        if n != 3 && n != 4 {
            assert_eq!(
                Pattern::new(terms.clone()).err(),
                Some(CottasError::InvalidPatternArity),
                "{n}"
            );
        }
        terms.push("?x".to_string());
    }
}

#[test]
fn terms_by_their_place() {
    let quad = parse_triple_pattern("<a> <p> \"o o\" ?g").unwrap();
    assert_eq!(quad.subject(), "<a>");
    assert_eq!(quad.predicate(), "<p>");
    assert_eq!(quad.object(), "\"o o\"");
    assert_eq!(quad.graph(), Some("?g"));
    let triple = parse_triple_pattern("<a> <p> \"o o\"").unwrap();
    assert_eq!(triple.object(), "\"o o\"");
    assert_eq!(triple.graph(), None);
}
