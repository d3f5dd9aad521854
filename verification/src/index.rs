//! The index model: which labels name a storage index, and the column order
//! that a label stands for.

use vstd::prelude::*;
use crate::text::{chars_of, join, joined, texts};

verus! {

/// The lower-case form of an ASCII capital; any other character is itself.
pub open spec fn lower(c: char) -> char {
    if 0x41 <= c as u32 <= 0x5A {
        ((c as u32) + 0x20) as char
    } else {
        c
    }
}

/// The label with each character in lower case.
pub open spec fn lowered(label: Seq<char>) -> Seq<char> {
    Seq::new(label.len(), |i: int| lower(label[i]))
}

/// The characters that occur in the label, in lower case.
pub open spec fn letters(label: Seq<char>) -> Set<char> {
    Set::new(|c: char| exists|i: int| 0 <= i < label.len() && lower(#[trigger] label[i]) == c)
}

/// The label of a triple index: three characters that are, without regard to
/// case or order, `s`, `p` and `o`.
pub open spec fn is_triple_label(label: Seq<char>) -> bool {
    label.len() == 3 && letters(label) == set!['s', 'p', 'o']
}

/// The label of a quad index: four characters that are, without regard to
/// case or order, `s`, `p`, `o` and `g`.
pub open spec fn is_quad_label(label: Seq<char>) -> bool {
    label.len() == 4 && letters(label) == set!['s', 'p', 'o', 'g']
}

/// The label names a storage index.
pub open spec fn is_index_label(label: Seq<char>) -> bool {
    is_triple_label(label) || is_quad_label(label)
}

/// The columns by which rows are ordered under `label`, first key first: the
/// label's characters in their order, and the graph column at the end when
/// `quad_mode` asks for it and the label does not name it.
pub open spec fn order_columns(label: Seq<char>, quad_mode: bool) -> Seq<char> {
    let columns = lowered(label);
    if quad_mode && !columns.contains('g') {
        columns.push('g')
    } else {
        columns
    }
}

/// The names of `columns`, one character each.
pub open spec fn column_names(columns: Seq<char>) -> Seq<Seq<char>> {
    Seq::new(columns.len(), |i: int| seq![columns[i]])
}

/// The text of the ordering directive for `label`.
pub open spec fn order_by_text(label: Seq<char>, quad_mode: bool) -> Seq<char> {
    "ORDER BY "@ + joined(column_names(order_columns(label, quad_mode)), ", "@)
}

/// The order of characters by code point.
pub open spec fn char_leq(a: char, b: char) -> bool {
    a as int <= b as int
}

/// The characters of the label in lower case and sorted.
pub open spec fn sorted_letters(label: Seq<char>) -> Seq<char> {
    lowered(label).sort_by(|a: char, b: char| char_leq(a, b))
}

/// The letters of a label are the characters of its lower-case form.
pub proof fn lemma_letters_of_lowered(label: Seq<char>)
    ensures
        forall|c: char| letters(label).contains(c) <==> lowered(label).contains(c),
{
    let low = lowered(label);
    assert forall|c: char| letters(label).contains(c) implies low.contains(c) by {
        let i = choose|i: int| 0 <= i < label.len() && lower(#[trigger] label[i]) == c;
        assert(low[i] == c);
    }
    assert forall|c: char| low.contains(c) implies letters(label).contains(c) by {
        let i = choose|i: int| 0 <= i < low.len() && low[i] == c;
        assert(lower(label[i]) == c);
    }
}

/// A label names an index exactly if its characters, in lower case and
/// sorted, are `o`, `p`, `s` or `g`, `o`, `p`, `s`. So the order and the case
/// of the characters make no difference, while a missing, a repeated or a
/// foreign character does.
pub proof fn lemma_label_by_sorting(label: Seq<char>)
    ensures
        is_triple_label(label) <==> sorted_letters(label) == seq!['o', 'p', 's'],
        is_quad_label(label) <==> sorted_letters(label) == seq!['g', 'o', 'p', 's'],
        is_index_label(label) <==> sorted_letters(label) == seq!['o', 'p', 's'] || sorted_letters(
            label,
        ) == seq!['g', 'o', 'p', 's'],
{
    broadcast use vstd::seq_lib::to_multiset_len, vstd::seq_lib::to_multiset_contains;

    let leq = |a: char, b: char| char_leq(a, b);
    let low = lowered(label);
    let sorted = low.sort_by(leq);
    assert(vstd::relations::total_ordering(leq));
    low.lemma_sort_by_ensures(leq);
    lemma_letters_of_lowered(label);
    // Sorting keeps the length and the characters.
    assert(sorted.len() == label.len()) by {
        assert(sorted.to_multiset().len() == low.to_multiset().len());
    }
    assert forall|c: char| letters(label).contains(c) <==> sorted.contains(c) by {
        assert(sorted.to_multiset().count(c) == low.to_multiset().count(c));
    }
    if sorted == seq!['o', 'p', 's'] {
        assert(sorted[0] == 'o' && sorted[1] == 'p' && sorted[2] == 's');
        assert(sorted.contains('o') && sorted.contains('p') && sorted.contains('s'));
        assert(letters(label) =~= set!['s', 'p', 'o']);
    }
    if sorted == seq!['g', 'o', 'p', 's'] {
        assert(sorted[0] == 'g' && sorted[1] == 'o' && sorted[2] == 'p' && sorted[3] == 's');
        assert(sorted.contains('g') && sorted.contains('o') && sorted.contains('p')
            && sorted.contains('s'));
        assert(letters(label) =~= set!['s', 'p', 'o', 'g']);
    }
    if is_index_label(label) {
        // Each letter stands somewhere in the sorted label, and the sorted
        // label has room for each only once.
        assert(sorted.contains('s') && sorted.contains('p') && sorted.contains('o'));
        let s_at = choose|i: int| 0 <= i < sorted.len() && sorted[i] == 's';
        let p_at = choose|i: int| 0 <= i < sorted.len() && sorted[i] == 'p';
        let o_at = choose|i: int| 0 <= i < sorted.len() && sorted[i] == 'o';
        assert(leq(sorted[0], sorted[1]) && leq(sorted[1], sorted[2]));
        if is_triple_label(label) {
            assert(sorted =~= seq!['o', 'p', 's']);
        } else {
            assert(sorted.contains('g'));
            let g_at = choose|i: int| 0 <= i < sorted.len() && sorted[i] == 'g';
            assert(leq(sorted[2], sorted[3]));
            assert(sorted =~= seq!['g', 'o', 'p', 's']);
        }
    }
}

/// Under a label that names an index the ordering names each column of the
/// table once: `s`, `p` and `o`, and `g` as well where the label is a quad
/// label or quad mode is asked for.
pub proof fn lemma_order_covers_columns(label: Seq<char>, quad_mode: bool)
    requires
        is_index_label(label),
    ensures
        order_columns(label, quad_mode).no_duplicates(),
        order_columns(label, quad_mode).to_set() == if quad_mode || is_quad_label(label) {
            set!['s', 'p', 'o', 'g']
        } else {
            set!['s', 'p', 'o']
        },
{
    let low = lowered(label);
    let columns = order_columns(label, quad_mode);
    lemma_letters_of_lowered(label);
    // The label has as many places as letters, so that no letter stands twice.
    let s_at = choose|k: int| 0 <= k < low.len() && low[k] == 's';
    let p_at = choose|k: int| 0 <= k < low.len() && low[k] == 'p';
    let o_at = choose|k: int| 0 <= k < low.len() && low[k] == 'o';
    assert(low.contains('s') && low.contains('p') && low.contains('o'));
    if is_quad_label(label) {
        assert(low.contains('g'));
        let g_at = choose|k: int| 0 <= k < low.len() && low[k] == 'g';
        assert(low.no_duplicates());
        assert(low.to_set() =~= set!['s', 'p', 'o', 'g']);
    } else {
        assert(low.no_duplicates());
        assert(!low.contains('g'));
        assert(low.to_set() =~= set!['s', 'p', 'o']);
        if quad_mode {
            assert(columns == low.push('g'));
            assert(columns[3] == 'g');
            assert forall|c: char| columns.contains(c) <==> set!['s', 'p', 'o', 'g'].contains(c) by {
                if columns.contains(c) {
                    let i = choose|i: int| 0 <= i < columns.len() && columns[i] == c;
                    if i < 3 {
                        assert(low.contains(low[i]));
                    }
                }
                if low.contains(c) {
                    let i = choose|i: int| 0 <= i < low.len() && low[i] == c;
                    assert(columns[i] == c);
                }
            }
            assert(columns.to_set() =~= set!['s', 'p', 'o', 'g']);
        }
    }
}

/// Lower-cases one character of a label.
pub fn to_lower(c: char) -> (r: char)
    ensures
        r == lower(c),
{
    let n: u32 = c as u32;
    if 0x41 <= n && n <= 0x5A {
        ((n + 0x20) as u8) as char
    } else {
        c
    }
}

/// Tells whether `index` names a storage index: `s`, `p` and `o`, with or
/// without `g`, each once, in any order and in either case. Nothing else does,
/// the empty label included.
pub fn is_valid_index(index: &str) -> (r: bool)
    ensures
        r == is_index_label(index@),
{
    let label = chars_of(index);
    let n: usize = label.len();
    if n != 3 && n != 4 {
        return false;
    }
    let mut seen_s = false;
    let mut seen_p = false;
    let mut seen_o = false;
    let mut seen_g = false;
    let mut seen_other = false;
    let mut i: usize = 0;
    while i < n
        invariant
            i <= n == label.len(),
            seen_s <==> exists|j: int| 0 <= j < i && lower(#[trigger] label@[j]) == 's',
            seen_p <==> exists|j: int| 0 <= j < i && lower(#[trigger] label@[j]) == 'p',
            seen_o <==> exists|j: int| 0 <= j < i && lower(#[trigger] label@[j]) == 'o',
            seen_g <==> exists|j: int| 0 <= j < i && lower(#[trigger] label@[j]) == 'g',
            seen_other <==> exists|j: int|
                0 <= j < i && !set!['s', 'p', 'o', 'g'].contains(lower(#[trigger] label@[j])),
        decreases n - i,
    {
        let c = to_lower(label[i]);
        if c == 's' {
            seen_s = true;
        } else if c == 'p' {
            seen_p = true;
        } else if c == 'o' {
            seen_o = true;
        } else if c == 'g' {
            seen_g = true;
        } else {
            seen_other = true;
        }
        i += 1;
    }
    let valid = seen_s && seen_p && seen_o && !seen_other && (seen_g == (n == 4));
    proof {
        let found = letters(label@);
        let wanted = if n == 3 {
            set!['s', 'p', 'o']
        } else {
            set!['s', 'p', 'o', 'g']
        };
        if valid {
            assert(found =~= wanted);
        } else {
            // A letter that is wanted is missing, or one is found that is not
            // wanted.
            assert(wanted.contains('s') && wanted.contains('p') && wanted.contains('o'));
            assert(n == 4 ==> wanted.contains('g'));
            if seen_other {
                let j = choose|j: int|
                    0 <= j < n && !set!['s', 'p', 'o', 'g'].contains(lower(#[trigger] label@[j]));
                assert(found.contains(lower(label@[j])));
            }
            assert(found != wanted);
        }
    }
    valid
}

/// The columns of the ordering for `index`, first key first. The graph column
/// is added at the end in quad mode unless the label names it already.
pub fn ordering_clause(index: &str, quad_mode: bool) -> (r: Vec<String>)
    requires
        is_index_label(index@),
    ensures
        texts(r@) == column_names(order_columns(index@, quad_mode)),
{
    let label = chars_of(index);
    let mut columns: Vec<String> = Vec::new();
    let mut names_graph = false;
    let mut i: usize = 0;
    while i < label.len()
        invariant
            i <= label.len(),
            label@ == index@,
            columns.len() == i,
            texts(columns@) == column_names(lowered(index@).take(i as int)),
            names_graph == lowered(index@).take(i as int).contains('g'),
        decreases label.len() - i,
    {
        let c = to_lower(label[i]);
        let mut name = String::new();
        name.push(c);
        proof {
            let before = lowered(index@).take(i as int);
            let after = lowered(index@).take(i + 1);
            assert forall|j: int| 0 <= j <= i implies texts(columns@.push(name))[j]
                == column_names(after)[j] by {
                if j < i {
                    assert(texts(columns@)[j] == column_names(before)[j]);
                }
            }
            assert(after == before.push(c));
            vstd::seq_lib::lemma_seq_contains_after_push(before, c, 'g');
        }
        columns.push(name);
        if c == 'g' {
            names_graph = true;
        }
        i += 1;
    }
    assert(lowered(index@).take(i as int) == lowered(index@));
    if quad_mode && !names_graph {
        let mut name = String::new();
        name.push('g');
        proof {
            let before = lowered(index@);
            assert forall|j: int| 0 <= j <= before.len() implies texts(columns@.push(name))[j]
                == column_names(before.push('g'))[j] by {
                if j < before.len() {
                    assert(texts(columns@)[j] == column_names(before)[j]);
                }
            }
        }
        columns.push(name);
    }
    columns
}

/// The ordering directive for `index`: `ORDER BY` and the columns of
/// `ordering_clause`, with a comma and a space between each two.
pub fn build_order_by(index: &str, quad_mode: bool) -> (r: String)
    requires
        is_index_label(index@),
    ensures
        r@ == order_by_text(index@, quad_mode),
{
    let columns = ordering_clause(index, quad_mode);
    let list = join(&columns, ", ");
    let mut clause = String::new();
    clause.append("ORDER BY ");
    clause.append(list.as_str());
    clause
}

} // verus!
