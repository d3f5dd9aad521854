//! What is told about a stored table: the label it was written under, its
//! counts, and whether it holds quads.

use vstd::prelude::*;
use crate::planner::has_column;
use crate::text::texts;

verus! {

/// The counts of a stored table, each the answer to one of `InfoQueries`.
#[derive(Debug, Clone, Copy, PartialEq, Eq)]
pub struct Counts {
    pub triples: u64,
    pub distinct_subjects: u64,
    pub distinct_predicates: u64,
    pub distinct_objects: u64,
}

/// What the file itself tells of a stored table, read by whoever holds the
/// file.
#[derive(Debug, Clone, PartialEq, Eq)]
pub struct FileFacts {
    /// The label found in the metadata under the key `index`.
    pub index: String,
    /// The number of row groups.
    pub triples_groups: u64,
    /// The name of the compression.
    pub compression: String,
    /// When the file was written or last changed.
    pub issued: String,
    /// The size of the file in bytes.
    pub size: u64,
}

/// The description of a stored table.
#[derive(Debug, Clone, PartialEq, Eq)]
pub struct Metadata {
    pub index: String,
    pub triples: u64,
    pub triples_groups: u64,
    pub distinct_subjects: u64,
    pub distinct_predicates: u64,
    pub distinct_objects: u64,
    pub compression: String,
    pub issued: String,
    pub size: u64,
    /// Whether the table has a graph column.
    pub quads: bool,
}

/// The queries whose answers describe a table: the label in its metadata,
/// its row groups and compression, and its counts.
#[derive(Debug, Clone, PartialEq, Eq)]
pub struct InfoQueries {
    pub index: String,
    pub triples_groups: String,
    pub compression: String,
    pub triples: String,
    pub distinct_subjects: String,
    pub distinct_predicates: String,
    pub distinct_objects: String,
}

/// The text of the query that counts `what` in the table at `path`.
pub open spec fn count_text(what: Seq<char>, path: Seq<char>) -> Seq<char> {
    "SELECT COUNT("@ + what + ") FROM PARQUET_SCAN('"@ + path + "')"@
}

/// The text of the query that reads `what` from the function `source` of the
/// engine applied to the file at `path`, with `filter` behind it.
pub open spec fn read_text(
    what: Seq<char>,
    source: Seq<char>,
    path: Seq<char>,
    filter: Seq<char>,
) -> Seq<char> {
    "SELECT "@ + what + " FROM "@ + source + "('"@ + path + "')"@ + filter
}

/// The text of the query that lists the names of the columns of the table at
/// `path`.
pub open spec fn columns_text(path: Seq<char>) -> Seq<char> {
    "SELECT column_name FROM (DESCRIBE SELECT * FROM PARQUET_SCAN('"@ + path + "'))"@
}

fn read_query(what: &str, source: &str, path: &str, filter: &str) -> (r: String)
    ensures
        r@ == read_text(what@, source@, path@, filter@),
{
    let mut query = String::new();
    query.append("SELECT ");
    query.append(what);
    query.append(" FROM ");
    query.append(source);
    query.append("('");
    query.append(path);
    query.append("')");
    query.append(filter);
    query
}

/// The query that lists the names of the columns of the table at
/// `cottas_file_path`.
pub fn columns_query(cottas_file_path: &str) -> (r: String)
    ensures
        r@ == columns_text(cottas_file_path@),
{
    let mut query = String::new();
    query.append("SELECT column_name FROM (DESCRIBE SELECT * FROM PARQUET_SCAN('");
    query.append(cottas_file_path);
    query.append("'))");
    query
}

fn count_query(what: &str, path: &str) -> (r: String)
    ensures
        r@ == count_text(what@, path@),
{
    let mut query = String::new();
    query.append("SELECT COUNT(");
    query.append(what);
    query.append(") FROM PARQUET_SCAN('");
    query.append(path);
    query.append("')");
    query
}

/// The queries that read the label, the row groups and the compression of
/// the table at `cottas_file_path`, and that count its rows and its distinct
/// subjects, predicates and objects.
pub fn info_queries(cottas_file_path: &str) -> (r: InfoQueries)
    ensures
        r.index@ == read_text(
            "decode(value)"@,
            "PARQUET_KV_METADATA"@,
            cottas_file_path@,
            " WHERE key = 'index'"@,
        ),
        r.triples_groups@ == read_text(
            "COUNT(DISTINCT row_group_id)"@,
            "PARQUET_METADATA"@,
            cottas_file_path@,
            ""@,
        ),
        r.compression@ == read_text(
            "DISTINCT compression"@,
            "PARQUET_METADATA"@,
            cottas_file_path@,
            ""@,
        ),
        r.triples@ == count_text("*"@, cottas_file_path@),
        r.distinct_subjects@ == count_text("DISTINCT s"@, cottas_file_path@),
        r.distinct_predicates@ == count_text("DISTINCT p"@, cottas_file_path@),
        r.distinct_objects@ == count_text("DISTINCT o"@, cottas_file_path@),
{
    InfoQueries {
        index: read_query(
            "decode(value)",
            "PARQUET_KV_METADATA",
            cottas_file_path,
            " WHERE key = 'index'",
        ),
        triples_groups: read_query(
            "COUNT(DISTINCT row_group_id)",
            "PARQUET_METADATA",
            cottas_file_path,
            "",
        ),
        compression: read_query("DISTINCT compression", "PARQUET_METADATA", cottas_file_path, ""),
        triples: count_query("*", cottas_file_path),
        distinct_subjects: count_query("DISTINCT s", cottas_file_path),
        distinct_predicates: count_query("DISTINCT p", cottas_file_path),
        distinct_objects: count_query("DISTINCT o", cottas_file_path),
    }
}

/// Describes a stored table from its column names, what its file tells and
/// the answers to its counting queries. It holds quads exactly if it has a
/// column `g`.
pub fn describe(columns: &Vec<String>, facts: FileFacts, counts: Counts) -> (r: Metadata)
    ensures
        r.quads == texts(columns@).contains("g"@),
        r.index == facts.index,
        r.triples_groups == facts.triples_groups,
        r.compression == facts.compression,
        r.issued == facts.issued,
        r.size == facts.size,
        r.triples == counts.triples,
        r.distinct_subjects == counts.distinct_subjects,
        r.distinct_predicates == counts.distinct_predicates,
        r.distinct_objects == counts.distinct_objects,
{
    let quads = has_column(columns, "g");
    let FileFacts { index, triples_groups, compression, issued, size } = facts;
    Metadata {
        index,
        triples: counts.triples,
        triples_groups,
        distinct_subjects: counts.distinct_subjects,
        distinct_predicates: counts.distinct_predicates,
        distinct_objects: counts.distinct_objects,
        compression,
        issued,
        size,
        quads,
    }
}

} // verus!
