//! The set-operation planner: the text of the statements that write a stored
//! table, whether from loaded quads, from the union of several tables or from
//! the difference of two, and the checks on a table's columns.
//!
//! Every table is written in the order of an index label, and carries the
//! label, in lower case, as its metadata under the key `index`.

use vstd::prelude::*;
use crate::index::{
    build_order_by, is_index_label, is_valid_index, lemma_letters_of_lowered, letters, lowered,
    order_by_text, to_lower,
};
use crate::text::{chars_of, join, joined, same_text, texts};

verus! {

/// The options under which a table is written: compressed as hard as can be,
/// in the format version that holds metadata, with the label as metadata.
pub open spec fn write_options(label: Seq<char>) -> Seq<char> {
    "(FORMAT PARQUET, COMPRESSION ZSTD, COMPRESSION_LEVEL 22, PARQUET_VERSION v2, KV_METADATA {index: '"@
        + lowered(label) + "'})"@
}

/// The statement that writes the rows of `select`, in the order of `label`,
/// to the table at `output`.
pub open spec fn copy_text(
    select: Seq<char>,
    label: Seq<char>,
    quad_mode: bool,
    output: Seq<char>,
) -> Seq<char> {
    "COPY ("@ + select + " "@ + order_by_text(label, quad_mode) + ") TO '"@ + output + "' "@
        + write_options(label)
}

/// The rows that an export writes: the distinct loaded statements, with their
/// graph in quad mode.
pub open spec fn export_select(quad_mode: bool) -> Seq<char> {
    if quad_mode {
        "SELECT DISTINCT s, p, o, g FROM quads"@
    } else {
        "SELECT DISTINCT s, p, o FROM quads"@
    }
}

/// The statement that exports the loaded statements to the table at `path`.
pub open spec fn export_text(label: Seq<char>, path: Seq<char>, quad_mode: bool) -> Seq<char> {
    copy_text(export_select(quad_mode), label, quad_mode, path)
}

/// Each of `paths` between single quotes.
pub open spec fn quoted(paths: Seq<Seq<char>>) -> Seq<Seq<char>> {
    Seq::new(paths.len(), |i: int| "'"@ + paths[i] + "'"@)
}

/// The rows of a merge: the distinct triples of all the tables at `paths`,
/// read by column name so that a table with a graph column and one without
/// can stand side by side.
pub open spec fn merge_select(paths: Seq<Seq<char>>) -> Seq<char> {
    "SELECT DISTINCT s, p, o FROM PARQUET_SCAN(["@ + joined(quoted(paths), ", "@)
        + "], union_by_name = true)"@
}

/// The statement that merges the tables at `paths` into the table at `output`.
pub open spec fn merge_text(paths: Seq<Seq<char>>, output: Seq<char>, label: Seq<char>) -> Seq<
    char,
> {
    copy_text(merge_select(paths), label, false, output)
}

/// The rows of a difference: the distinct rows of the table at `left` that the
/// table at `right` does not hold.
pub open spec fn diff_select(left: Seq<char>, right: Seq<char>) -> Seq<char> {
    "SELECT DISTINCT * FROM PARQUET_SCAN('"@ + left + "') EXCEPT SELECT * FROM PARQUET_SCAN('"@
        + right + "')"@
}

/// The statement that writes the difference of two tables to the table at
/// `output`.
pub open spec fn diff_text(
    left: Seq<char>,
    right: Seq<char>,
    output: Seq<char>,
    label: Seq<char>,
) -> Seq<char> {
    copy_text(diff_select(left, right), label, false, output)
}

/// The columns of a stored table: `s`, `p` and `o`, each of them, with or
/// without `g`, and no other.
pub open spec fn is_cottas_schema(columns: Seq<Seq<char>>) -> bool {
    let names = columns.to_set();
    set!["s"@, "p"@, "o"@].subset_of(names) && names.subset_of(set!["s"@, "p"@, "o"@, "g"@])
}

/// The case of a label makes no difference: two labels that are the same in
/// lower case are valid together, order rows alike and leave the same
/// metadata, so that tables written under either can be told to be ordered
/// alike.
pub proof fn lemma_label_case_is_free(a: Seq<char>, b: Seq<char>, quad_mode: bool)
    requires
        lowered(a) == lowered(b),
    ensures
        is_index_label(a) == is_index_label(b),
        order_by_text(a, quad_mode) == order_by_text(b, quad_mode),
        write_options(a) == write_options(b),
{
    assert(a.len() == lowered(a).len() && b.len() == lowered(b).len());
    lemma_letters_of_lowered(a);
    lemma_letters_of_lowered(b);
    assert(letters(a) =~= letters(b));
}

/// A table has the columns of a stored table exactly if its columns are `s`,
/// `p` and `o`, or these and `g`: a missing column spoils it, and so does any
/// other column.
pub proof fn lemma_schema_is_exact(columns: Seq<Seq<char>>)
    ensures
        is_cottas_schema(columns) <==> columns.to_set() == set!["s"@, "p"@, "o"@]
            || columns.to_set() == set!["s"@, "p"@, "o"@, "g"@],
{
    let names = columns.to_set();
    let triple = set!["s"@, "p"@, "o"@];
    let quad = set!["s"@, "p"@, "o"@, "g"@];
    if is_cottas_schema(columns) {
        if names.contains("g"@) {
            assert(names =~= quad);
        } else {
            assert(names =~= triple);
        }
    }
}

/// What is to be done for a merge or a difference.
#[derive(Debug, Clone, PartialEq, Eq)]
pub enum Plan {
    /// Nothing: the label names no index. No table is written and no input is
    /// touched.
    Skip,
    /// Run `query`; once it has succeeded, delete the files in `remove`.
    Run { query: String, remove: Vec<String> },
}

impl Plan {
    /// The plan is to run the statement `query` and then to delete the files
    /// `remove`.
    pub open spec fn runs(self, query: Seq<char>, remove: Seq<Seq<char>>) -> bool {
        match self {
            Plan::Skip => false,
            Plan::Run { query: q, remove: r } => q@ == query && texts(r@) == remove,
        }
    }
}

fn lowered_text(label: &str) -> (r: String)
    ensures
        r@ == lowered(label@),
{
    let chars = chars_of(label);
    let mut out = String::new();
    let mut i: usize = 0;
    while i < chars.len()
        invariant
            i <= chars.len(),
            chars@ == label@,
            out@ == lowered(label@).take(i as int),
        decreases chars.len() - i,
    {
        out.push(to_lower(chars[i]));
        i += 1;
    }
    out
}

fn copy_statement(select: &str, index: &str, quad_mode: bool, output: &str) -> (r: String)
    requires
        is_index_label(index@),
    ensures
        r@ == copy_text(select@, index@, quad_mode, output@),
{
    let mut query = String::new();
    query.append("COPY (");
    query.append(select);
    query.append(" ");
    query.append(build_order_by(index, quad_mode).as_str());
    query.append(") TO '");
    query.append(output);
    query.append("' ");
    query.append(
        "(FORMAT PARQUET, COMPRESSION ZSTD, COMPRESSION_LEVEL 22, PARQUET_VERSION v2, KV_METADATA {index: '",
    );
    query.append(lowered_text(index).as_str());
    query.append("'})");
    query
}

/// The statement that writes the loaded statements to the table at `path`,
/// ordered by `index` and carrying `index` as metadata; with the graph column
/// in quad mode.
pub fn export_to_cottas(index: &str, path: &str, quad_mode: bool) -> (r: String)
    requires
        is_index_label(index@),
    ensures
        r@ == export_text(index@, path@, quad_mode),
{
    let select = if quad_mode {
        "SELECT DISTINCT s, p, o, g FROM quads"
    } else {
        "SELECT DISTINCT s, p, o FROM quads"
    };
    copy_statement(select, index, quad_mode, path)
}

fn copies(paths: &Vec<String>) -> (r: Vec<String>)
    ensures
        texts(r@) == texts(paths@),
{
    let mut out: Vec<String> = Vec::new();
    let mut i: usize = 0;
    while i < paths.len()
        invariant
            i <= paths.len(),
            out.len() == i,
            forall|j: int| 0 <= j < i ==> (#[trigger] out@[j])@ == paths@[j]@,
        decreases paths.len() - i,
    {
        out.push(paths[i].clone());
        i += 1;
    }
    out
}

/// Plans the merge of the tables at `cottas_file_paths` into one at `output`,
/// ordered by `index`. With a label that names no index nothing is planned.
/// The inputs are deleted after the merge only if `remove_input_files` says
/// so.
pub fn cat(
    cottas_file_paths: &Vec<String>,
    output: &str,
    index: &str,
    remove_input_files: bool,
) -> (r: Plan)
    ensures
        !is_index_label(index@) ==> r is Skip,
        is_index_label(index@) ==> r.runs(
            merge_text(texts(cottas_file_paths@), output@, index@),
            if remove_input_files {
                texts(cottas_file_paths@)
            } else {
                Seq::empty()
            },
        ),
{
    if !is_valid_index(index) {
        return Plan::Skip;
    }
    let ghost paths = texts(cottas_file_paths@);
    let mut files: Vec<String> = Vec::new();
    let mut i: usize = 0;
    while i < cottas_file_paths.len()
        invariant
            i <= cottas_file_paths.len(),
            files.len() == i,
            paths == texts(cottas_file_paths@),
            texts(files@) == quoted(paths).take(i as int),
        decreases cottas_file_paths.len() - i,
    {
        let mut file = String::new();
        file.append("'");
        file.append(cottas_file_paths[i].as_str());
        file.append("'");
        files.push(file);
        i += 1;
    }
    assert(quoted(paths).take(i as int) == quoted(paths));
    let mut select = String::new();
    select.append("SELECT DISTINCT s, p, o FROM PARQUET_SCAN([");
    select.append(join(&files, ", ").as_str());
    select.append("], union_by_name = true)");
    let query = copy_statement(select.as_str(), index, false, output);
    let remove = if remove_input_files {
        copies(cottas_file_paths)
    } else {
        Vec::new()
    };
    assert(!remove_input_files ==> texts(remove@) =~= Seq::<Seq<char>>::empty());
    Plan::Run { query, remove }
}

/// Plans the difference of two tables: the rows of the one at
/// `cottas_file_1_path` that the one at `cottas_file_2_path` does not hold,
/// written to `output` in the order of `index`. With a label that names no
/// index nothing is planned. Both inputs are deleted after the writing only if
/// `remove_input_files` says so.
pub fn diff(
    cottas_file_1_path: &str,
    cottas_file_2_path: &str,
    output: &str,
    index: &str,
    remove_input_files: bool,
) -> (r: Plan)
    ensures
        !is_index_label(index@) ==> r is Skip,
        is_index_label(index@) ==> r.runs(
            diff_text(cottas_file_1_path@, cottas_file_2_path@, output@, index@),
            if remove_input_files {
                seq![cottas_file_1_path@, cottas_file_2_path@]
            } else {
                Seq::empty()
            },
        ),
{
    if !is_valid_index(index) {
        return Plan::Skip;
    }
    let mut select = String::new();
    select.append("SELECT DISTINCT * FROM PARQUET_SCAN('");
    select.append(cottas_file_1_path);
    select.append("') EXCEPT SELECT * FROM PARQUET_SCAN('");
    select.append(cottas_file_2_path);
    select.append("')");
    let query = copy_statement(select.as_str(), index, false, output);
    let mut remove: Vec<String> = Vec::new();
    if remove_input_files {
        remove.push(cottas_file_1_path.to_owned());
        remove.push(cottas_file_2_path.to_owned());
        assert(texts(remove@) =~= seq![cottas_file_1_path@, cottas_file_2_path@]);
    } else {
        assert(texts(remove@) =~= Seq::<Seq<char>>::empty());
    }
    Plan::Run { query, remove }
}

/// Tells whether `column` is among the names `columns` of a table's columns.
pub fn has_column(columns: &Vec<String>, column: &str) -> (r: bool)
    ensures
        r == texts(columns@).contains(column@),
{
    let mut i: usize = 0;
    while i < columns.len()
        invariant
            i <= columns.len(),
            forall|j: int| 0 <= j < i ==> (#[trigger] texts(columns@)[j]) != column@,
        decreases columns.len() - i,
    {
        if same_text(columns[i].as_str(), column) {
            assert(texts(columns@)[i as int] == column@);
            return true;
        }
        i += 1;
    }
    false
}

/// Tells whether `columns` are the columns of a stored table: the three of a
/// triple, with or without the graph, and nothing else.
pub fn verify(columns: &Vec<String>) -> (r: bool)
    ensures
        r == is_cottas_schema(texts(columns@)),
{
    let ghost names = texts(columns@);
    let mut other = false;
    let mut i: usize = 0;
    while i < columns.len()
        invariant
            i <= columns.len(),
            names == texts(columns@),
            other <==> exists|j: int|
                0 <= j < i && !set!["s"@, "p"@, "o"@, "g"@].contains(#[trigger] names[j]),
        decreases columns.len() - i,
    {
        let name = columns[i].as_str();
        assert(name@ == names[i as int]);
        if !(same_text(name, "s") || same_text(name, "p") || same_text(name, "o") || same_text(
            name,
            "g",
        )) {
            other = true;
        }
        i += 1;
    }
    let valid = !other && has_column(columns, "s") && has_column(columns, "p") && has_column(
        columns,
        "o",
    );
    proof {
        let found = names.to_set();
        let needed = set!["s"@, "p"@, "o"@];
        let allowed = set!["s"@, "p"@, "o"@, "g"@];
        if other {
            let j = choose|j: int| 0 <= j < names.len() && !allowed.contains(#[trigger] names[j]);
            assert(found.contains(names[j]));
        } else {
            assert forall|name: Seq<char>| found.contains(name) implies allowed.contains(name) by {
                let j = choose|j: int| 0 <= j < names.len() && names[j] == name;
                assert(allowed.contains(names[j]));
            }
        }
        assert(needed.contains("s"@) && needed.contains("p"@) && needed.contains("o"@));
    }
    valid
}

} // verus!
