use cottas_rs::{columns_query, describe, info_queries, Counts, FileFacts};

fn strings(names: &[&str]) -> Vec<String> {
    names.iter().map(|t| t.to_string()).collect()
}

fn facts() -> FileFacts {
    FileFacts {
        index: "spo".to_string(),
        triples_groups: 2,
        compression: "ZSTD".to_string(),
        issued: "2024-05-01T10:00:00".to_string(),
        size: 4096,
    }
}

fn counts() -> Counts {
    Counts { triples: 10, distinct_subjects: 4, distinct_predicates: 3, distinct_objects: 7 }
}

#[test]
fn counting_queries() {
    let queries = info_queries("f.cottas");
    assert_eq!(queries.triples, "SELECT COUNT(*) FROM PARQUET_SCAN('f.cottas')");
    assert_eq!(queries.distinct_subjects, "SELECT COUNT(DISTINCT s) FROM PARQUET_SCAN('f.cottas')");
    assert_eq!(queries.distinct_predicates, "SELECT COUNT(DISTINCT p) FROM PARQUET_SCAN('f.cottas')");
    assert_eq!(queries.distinct_objects, "SELECT COUNT(DISTINCT o) FROM PARQUET_SCAN('f.cottas')");
}

#[test]
fn reading_queries() {
    let queries = info_queries("f.cottas");
    assert_eq!(
        queries.index,
        "SELECT decode(value) FROM PARQUET_KV_METADATA('f.cottas') WHERE key = 'index'"
    );
    assert_eq!(
        queries.triples_groups,
        "SELECT COUNT(DISTINCT row_group_id) FROM PARQUET_METADATA('f.cottas')"
    );
    assert_eq!(
        queries.compression,
        "SELECT DISTINCT compression FROM PARQUET_METADATA('f.cottas')"
    );
}

#[test]
fn column_listing_query() {
    assert_eq!(
        columns_query("f.cottas"),
        "SELECT column_name FROM (DESCRIBE SELECT * FROM PARQUET_SCAN('f.cottas'))"
    );
}

#[test]
fn a_table_with_a_graph_column_holds_quads() {
    let described = describe(&strings(&["s", "p", "o", "g"]), facts(), counts());
    assert!(described.quads);
    let described = describe(&strings(&["s", "p", "o"]), facts(), counts());
    assert!(!described.quads);
}

#[test]
fn description_keeps_what_was_read() {
    let described = describe(&strings(&["s", "p", "o"]), facts(), counts());
    assert_eq!(described.index, "spo");
    assert_eq!(described.triples, 10);
    assert_eq!(described.triples_groups, 2);
    assert_eq!(described.distinct_subjects, 4);
    assert_eq!(described.distinct_predicates, 3);
    assert_eq!(described.distinct_objects, 7);
    assert_eq!(described.compression, "ZSTD");
    assert_eq!(described.issued, "2024-05-01T10:00:00");
    assert_eq!(described.size, 4096);
}
