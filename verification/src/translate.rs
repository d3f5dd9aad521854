//! The predicate translator: from the terms of a pattern to the text of a
//! query that scans one stored table.

use vstd::prelude::*;
use crate::error::CottasError;
use crate::pattern::{is_variable, parse_triple_pattern, pattern_terms, Pattern};
use crate::text::{chars_of, join, joined, texts};

verus! {

/// The column that holds the term at `position` of a pattern: `s`, `p`, `o`
/// and, last, `g`.
pub open spec fn position_column(position: int) -> char {
    if position == 0 {
        's'
    } else if position == 1 {
        'p'
    } else if position == 2 {
        'o'
    } else {
        'g'
    }
}

/// How one character of a value is written inside a quoted literal: a single
/// quote twice, any other character as it is.
pub open spec fn escaped_char(c: char) -> Seq<char> {
    if c == '\'' {
        seq!['\'', '\'']
    } else {
        seq![c]
    }
}

/// `term` with each single quote doubled.
pub open spec fn escaped(term: Seq<char>) -> Seq<char>
    decreases term.len(),
{
    if term.len() == 0 {
        Seq::empty()
    } else {
        escaped(term.drop_last()) + escaped_char(term.last())
    }
}

/// The value that a query engine reads from the body of a quoted literal: two
/// single quotes stand for one, and a single quote alone would end the
/// literal, so that such a body has no value.
pub open spec fn literal_value(body: Seq<char>) -> Option<Seq<char>>
    decreases body.len(),
{
    if body.len() == 0 {
        Some(Seq::empty())
    } else if body[0] != '\'' {
        match literal_value(body.skip(1)) {
            Some(rest) => Some(seq![body[0]] + rest),
            None => None,
        }
    } else if body.len() >= 2 && body[1] == '\'' {
        match literal_value(body.skip(2)) {
            Some(rest) => Some(seq!['\''] + rest),
            None => None,
        }
    } else {
        None
    }
}

/// The condition that binds the column at `position` to `term`.
pub open spec fn condition(position: int, term: Seq<char>) -> Seq<char> {
    seq![position_column(position)] + "='"@ + escaped(term) + "'"@
}

/// The conditions for the first `upto` terms, in order: one for each term
/// that is no variable.
pub open spec fn conditions(terms: Seq<Seq<char>>, upto: int) -> Seq<Seq<char>>
    decreases upto,
{
    if upto <= 0 {
        Seq::empty()
    } else if is_variable(terms[upto - 1]) {
        conditions(terms, upto - 1)
    } else {
        conditions(terms, upto - 1).push(condition(upto - 1, terms[upto - 1]))
    }
}

/// The columns that are projected for a pattern of `arity` terms.
pub open spec fn projection(arity: nat) -> Seq<char> {
    if arity == 4 {
        "s, p, o, g"@
    } else {
        "s, p, o"@
    }
}

/// The filter of a query: nothing where there is no condition, else the
/// conditions joined by `AND`.
pub open spec fn where_text(conds: Seq<Seq<char>>) -> Seq<char> {
    if conds.len() == 0 {
        Seq::empty()
    } else {
        " WHERE "@ + joined(conds, " AND "@)
    }
}

/// The text of the query that matches `terms` against the table stored at
/// `path`.
pub open spec fn query_text(path: Seq<char>, terms: Seq<Seq<char>>) -> Seq<char> {
    "SELECT "@ + projection(terms.len()) + " FROM PARQUET_SCAN('"@ + path + "')"@ + where_text(
        conditions(terms, terms.len() as int),
    )
}

/// Escaping goes character by character.
pub proof fn lemma_escaped_concat(a: Seq<char>, b: Seq<char>)
    ensures
        escaped(a + b) == escaped(a) + escaped(b),
    decreases b.len(),
{
    if b.len() == 0 {
        assert(a + b == a);
    } else {
        assert((a + b).drop_last() == a + b.drop_last());
        lemma_escaped_concat(a, b.drop_last());
    }
}

/// Escaping is safe: a query engine reads the escaped text of any term back
/// as that term, whole, whatever quotes the term holds.
pub proof fn lemma_escaped_reads_back(term: Seq<char>)
    ensures
        literal_value(escaped(term)) == Some(term),
    decreases term.len(),
{
    if term.len() > 0 {
        let head = seq![term[0]];
        let rest = term.skip(1);
        assert(term == head + rest);
        lemma_escaped_concat(head, rest);
        assert(escaped(head.drop_last()) == Seq::<char>::empty());
        assert(escaped(head) == escaped_char(term[0]));
        lemma_escaped_reads_back(rest);
        let body = escaped(term);
        if term[0] == '\'' {
            assert(body.skip(2) == escaped(rest));
        } else {
            assert(body.skip(1) == escaped(rest));
        }
    }
}

/// A pattern of variables alone gives a plain projection, with no filter.
pub proof fn lemma_unbound_pattern(path: Seq<char>, terms: Seq<Seq<char>>)
    requires
        forall|i: int| 0 <= i < terms.len() ==> is_variable(#[trigger] terms[i]),
    ensures
        query_text(path, terms) == "SELECT "@ + projection(terms.len())
            + " FROM PARQUET_SCAN('"@ + path + "')"@,
{
    lemma_no_conditions(terms, terms.len() as int);
}

/// Variables give no condition.
pub proof fn lemma_no_conditions(terms: Seq<Seq<char>>, upto: int)
    requires
        upto <= terms.len(),
        forall|i: int| 0 <= i < upto ==> is_variable(#[trigger] terms[i]),
    ensures
        conditions(terms, upto).len() == 0,
    decreases upto,
{
    if upto > 0 {
        lemma_no_conditions(terms, upto - 1);
    }
}

/// A triple pattern of which the subject alone is bound gives one condition,
/// on the column `s`.
pub proof fn lemma_only_subject_bound(path: Seq<char>, terms: Seq<Seq<char>>)
    requires
        terms.len() == 3,
        !is_variable(terms[0]),
        is_variable(terms[1]),
        is_variable(terms[2]),
    ensures
        conditions(terms, 3) == seq![condition(0, terms[0])],
        query_text(path, terms) == "SELECT "@ + "s, p, o"@ + " FROM PARQUET_SCAN('"@ + path
            + "')"@ + " WHERE "@ + (seq!['s'] + "='"@ + escaped(terms[0]) + "'"@),
{
    assert(conditions(terms, 0) == Seq::<Seq<char>>::empty());
    assert(conditions(terms, 1) == seq![condition(0, terms[0])]);
    assert(conditions(terms, 2) == conditions(terms, 1));
    assert(conditions(terms, 3) == conditions(terms, 2));
}

/// Doubles the single quotes of `term`.
pub fn escape(term: &str) -> (r: String)
    ensures
        r@ == escaped(term@),
{
    let chars = chars_of(term);
    let mut out = String::new();
    let mut i: usize = 0;
    while i < chars.len()
        invariant
            i <= chars.len(),
            chars@ == term@,
            out@ == escaped(term@.take(i as int)),
        decreases chars.len() - i,
    {
        proof {
            let next = term@.take(i + 1);
            assert(next.drop_last() == term@.take(i as int));
        }
        let c = chars[i];
        if c == '\'' {
            out.push('\'');
            out.push('\'');
        } else {
            out.push(c);
        }
        i += 1;
    }
    assert(term@.take(i as int) == term@);
    out
}

/// Tells whether `term` is a variable.
pub fn is_var(term: &str) -> (r: bool)
    ensures
        r == is_variable(term@),
{
    let chars = chars_of(term);
    chars.len() > 0 && (chars[0] == '?' || chars[0] == '$')
}

fn column_at(position: usize) -> (r: char)
    ensures
        r == position_column(position as int),
{
    if position == 0 {
        's'
    } else if position == 1 {
        'p'
    } else if position == 2 {
        'o'
    } else {
        'g'
    }
}

fn select_from(path: &str, terms: &Vec<String>) -> (r: String)
    requires
        terms.len() == 3 || terms.len() == 4,
    ensures
        r@ == query_text(path@, texts(terms@)),
{
    let ghost all = texts(terms@);
    let mut conds: Vec<String> = Vec::new();
    let mut i: usize = 0;
    while i < terms.len()
        invariant
            i <= terms.len(),
            all == texts(terms@),
            texts(conds@) == conditions(all, i as int),
        decreases terms.len() - i,
    {
        let term = terms[i].as_str();
        if !is_var(term) {
            let mut cond = String::new();
            cond.push(column_at(i));
            cond.append("='");
            cond.append(escape(term).as_str());
            cond.append("'");
            conds.push(cond);
        }
        i += 1;
    }
    let mut query = String::new();
    query.append("SELECT ");
    if terms.len() == 4 {
        query.append("s, p, o, g");
    } else {
        query.append("s, p, o");
    }
    query.append(" FROM PARQUET_SCAN('");
    query.append(path);
    query.append("')");
    if conds.len() > 0 {
        query.append(" WHERE ");
        query.append(join(&conds, " AND ").as_str());
    }
    query
}

/// The query text for the terms of a pattern against the table stored at
/// `cottas_file_path`. Terms that are neither three nor four are refused.
pub fn translate(cottas_file_path: &str, terms: &Vec<String>) -> (r: Result<String, CottasError>)
    ensures
        match r {
            Ok(query) => (terms.len() == 3 || terms.len() == 4) && query@ == query_text(
                cottas_file_path@,
                texts(terms@),
            ),
            Err(error) => error == CottasError::InvalidPatternArity && terms.len() != 3
                && terms.len() != 4,
        },
{
    if terms.len() == 3 || terms.len() == 4 {
        Ok(select_from(cottas_file_path, terms))
    } else {
        Err(CottasError::InvalidPatternArity)
    }
}

/// The query text for `pattern` against the table stored at
/// `cottas_file_path`.
pub fn translate_pattern(cottas_file_path: &str, pattern: &Pattern) -> (r: String)
    ensures
        r@ == query_text(cottas_file_path@, pattern@),
{
    select_from(cottas_file_path, pattern.terms())
}

/// Parses `triple_pattern` and gives the query text for it against the table
/// stored at `cottas_file_path`.
pub fn translate_triple_pattern(cottas_file_path: &str, triple_pattern: &str) -> (r: Result<
    String,
    CottasError,
>)
    ensures
        match pattern_terms(triple_pattern@) {
            Some(terms) => r matches Ok(query) && query@ == query_text(cottas_file_path@, terms),
            None => r matches Err(error) && error == CottasError::MalformedPattern,
        },
{
    match parse_triple_pattern(triple_pattern) {
        Ok(pattern) => Ok(translate_pattern(cottas_file_path, &pattern)),
        Err(error) => Err(error),
    }
}

} // verus!
