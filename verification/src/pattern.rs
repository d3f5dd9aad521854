//! Triple and quad patterns: terms separated by white space, the first two of
//! which are subject and predicate, while the object may itself hold white
//! space.
//!
//! A pattern whose text goes on after the third word is ambiguous: its last
//! word is taken for a graph term whenever it begins like an IRI or a
//! variable, also where it was meant as the end of a literal object.

use vstd::prelude::*;
use crate::error::CottasError;
use crate::text::{chars_of, is_space, is_whitespace, text_of_range, texts};

verus! {

/// The first position at or after `from` that holds no white space, or the
/// length of `s` if there is none.
pub open spec fn skip_spaces(s: Seq<char>, from: int) -> int
    decreases s.len() - from,
{
    if 0 <= from < s.len() && is_space(s[from]) {
        skip_spaces(s, from + 1)
    } else {
        from
    }
}

/// The first position at or after `from` that holds white space, or the
/// length of `s` if there is none.
pub open spec fn skip_word(s: Seq<char>, from: int) -> int
    decreases s.len() - from,
{
    if 0 <= from < s.len() && !is_space(s[from]) {
        skip_word(s, from + 1)
    } else {
        from
    }
}

/// The end of the text before `to` once the white space at its end is left
/// off.
pub open spec fn trim_end(s: Seq<char>, to: int) -> int
    decreases to,
{
    if 0 < to <= s.len() && is_space(s[to - 1]) {
        trim_end(s, to - 1)
    } else {
        to
    }
}

/// The start of the word that ends at `to`.
pub open spec fn word_start(s: Seq<char>, to: int) -> int
    decreases to,
{
    if 0 < to <= s.len() && !is_space(s[to - 1]) {
        word_start(s, to - 1)
    } else {
        to
    }
}

/// The words of `s` that begin at or after `from`: the maximal runs of
/// characters that are no white space, in order.
pub open spec fn words_from(s: Seq<char>, from: int) -> Seq<Seq<char>>
    decreases s.len() - from,
{
    let start = skip_spaces(s, from);
    let end = skip_word(s, start);
    if 0 <= from <= start < end <= s.len() {
        seq![s.subrange(start, end)] + words_from(s, end)
    } else {
        Seq::empty()
    }
}

/// The words of `s`.
pub open spec fn words(s: Seq<char>) -> Seq<Seq<char>> {
    words_from(s, 0)
}

/// The text of `s` from `from` on, without the white space at its two ends.
pub open spec fn trimmed_from(s: Seq<char>, from: int) -> Seq<char> {
    let start = skip_spaces(s, from);
    let end = trim_end(s, s.len() as int);
    if 0 <= start < end {
        s.subrange(start, end)
    } else {
        Seq::empty()
    }
}

/// `s` without the white space at its two ends.
pub open spec fn trimmed(s: Seq<char>) -> Seq<char> {
    trimmed_from(s, 0)
}

/// Where the second word of `s` ends.
pub open spec fn predicate_end(s: Seq<char>) -> int {
    skip_word(s, skip_spaces(s, skip_word(s, skip_spaces(s, 0))))
}

/// A variable: a term that begins with `?` or `$`.
pub open spec fn is_variable(term: Seq<char>) -> bool {
    term.len() > 0 && (term[0] == '?' || term[0] == '$')
}

/// A term that may name a graph: an IRI, which begins with `<`, or a variable.
pub open spec fn is_graph_term(term: Seq<char>) -> bool {
    term.len() > 0 && (term[0] == '<' || term[0] == '?' || term[0] == '$')
}

/// The terms of the pattern written in `s`, or `None` where `s` has fewer than
/// three words.
///
/// The first two words are subject and predicate. What follows them, without
/// the white space around it, is the object; but where there are more than
/// three words and the last one may name a graph, that word is the graph and
/// the object is what stands before it.
pub open spec fn pattern_terms(s: Seq<char>) -> Option<Seq<Seq<char>>> {
    let w = words(s);
    if w.len() < 3 {
        None
    } else {
        let rest = trimmed_from(s, predicate_end(s));
        if w.len() > 3 && is_graph_term(w.last()) {
            Some(seq![w[0], w[1], trimmed(rest.take(rest.len() - w.last().len())), w.last()])
        } else {
            Some(seq![w[0], w[1], rest])
        }
    }
}

/// `from` is a place where no word is cut in two: the start of `s`, its end,
/// or a white space.
pub open spec fn at_gap(s: Seq<char>, from: int) -> bool {
    0 <= from <= s.len() && (from == 0 || from == s.len() || is_space(s[from]))
}

/// What `skip_spaces` finds: white space from `from` up to the result, and
/// none at the result.
pub proof fn lemma_skip_spaces(s: Seq<char>, from: int)
    requires
        0 <= from <= s.len(),
    ensures
        from <= skip_spaces(s, from) <= s.len(),
        forall|k: int| from <= k < skip_spaces(s, from) ==> is_space(#[trigger] s[k]),
        skip_spaces(s, from) < s.len() ==> !is_space(s[skip_spaces(s, from)]),
    decreases s.len() - from,
{
    if from < s.len() && is_space(s[from]) {
        lemma_skip_spaces(s, from + 1);
    }
}

/// What `skip_word` finds: no white space from `from` up to the result, and
/// white space at the result.
pub proof fn lemma_skip_word(s: Seq<char>, from: int)
    requires
        0 <= from <= s.len(),
    ensures
        from <= skip_word(s, from) <= s.len(),
        forall|k: int| from <= k < skip_word(s, from) ==> !is_space(#[trigger] s[k]),
        skip_word(s, from) < s.len() ==> is_space(s[skip_word(s, from)]),
    decreases s.len() - from,
{
    if from < s.len() && !is_space(s[from]) {
        lemma_skip_word(s, from + 1);
    }
}

/// What `trim_end` finds: white space from the result up to `to`, and none
/// just before the result.
pub proof fn lemma_trim_end(s: Seq<char>, to: int)
    requires
        0 <= to <= s.len(),
    ensures
        0 <= trim_end(s, to) <= to,
        forall|k: int| trim_end(s, to) <= k < to ==> is_space(#[trigger] s[k]),
        trim_end(s, to) > 0 ==> !is_space(s[trim_end(s, to) - 1]),
    decreases to,
{
    if 0 < to && is_space(s[to - 1]) {
        lemma_trim_end(s, to - 1);
    }
}

/// What `word_start` finds: no white space from the result up to `to`, and
/// white space just before the result.
pub proof fn lemma_word_start(s: Seq<char>, to: int)
    requires
        0 <= to <= s.len(),
    ensures
        0 <= word_start(s, to) <= to,
        forall|k: int| word_start(s, to) <= k < to ==> !is_space(#[trigger] s[k]),
        word_start(s, to) > 0 ==> is_space(s[word_start(s, to) - 1]),
    decreases to,
{
    if 0 < to && !is_space(s[to - 1]) {
        lemma_word_start(s, to - 1);
    }
}

/// The position `at` with white space all the way from `from` and none at
/// `at` is the one that `skip_spaces` finds.
pub proof fn lemma_skip_spaces_is(s: Seq<char>, from: int, at: int)
    requires
        0 <= from <= at <= s.len(),
        forall|k: int| from <= k < at ==> is_space(#[trigger] s[k]),
        at < s.len() ==> !is_space(s[at]),
    ensures
        skip_spaces(s, from) == at,
    decreases at - from,
{
    if from < at {
        assert(is_space(s[from]));
        lemma_skip_spaces_is(s, from + 1, at);
    }
}

/// The position `at` with no white space all the way from `from` and white
/// space at `at` is the one that `skip_word` finds.
pub proof fn lemma_skip_word_is(s: Seq<char>, from: int, at: int)
    requires
        0 <= from <= at <= s.len(),
        forall|k: int| from <= k < at ==> !is_space(#[trigger] s[k]),
        at < s.len() ==> is_space(s[at]),
    ensures
        skip_word(s, from) == at,
    decreases at - from,
{
    if from < at {
        assert(!is_space(s[from]));
        lemma_skip_word_is(s, from + 1, at);
    }
}

/// The position `at` with white space all the way up to `to` and none just
/// before `at` is the one that `trim_end` finds.
pub proof fn lemma_trim_end_is(s: Seq<char>, to: int, at: int)
    requires
        0 <= at <= to <= s.len(),
        forall|k: int| at <= k < to ==> is_space(#[trigger] s[k]),
        at > 0 ==> !is_space(s[at - 1]),
    ensures
        trim_end(s, to) == at,
    decreases to - at,
{
    if at < to {
        assert(is_space(s[to - 1]));
        lemma_trim_end_is(s, to - 1, at);
    }
}

/// The position `at` with no white space all the way up to `to` and white
/// space just before `at` is the one that `word_start` finds.
pub proof fn lemma_word_start_is(s: Seq<char>, to: int, at: int)
    requires
        0 <= at <= to <= s.len(),
        forall|k: int| at <= k < to ==> !is_space(#[trigger] s[k]),
        at > 0 ==> is_space(s[at - 1]),
    ensures
        word_start(s, to) == at,
    decreases to - at,
{
    if at < to {
        assert(!is_space(s[to - 1]));
        lemma_word_start_is(s, to - 1, at);
    }
}

/// A word that begins at `start` does not end there.
pub proof fn lemma_word_is_not_empty(s: Seq<char>, start: int)
    requires
        0 <= start < s.len(),
        !is_space(s[start]),
    ensures
        start < skip_word(s, start) <= s.len(),
{
    lemma_skip_word(s, start + 1);
}

/// The first two words of `s` and what follows them. `s` has fewer than three
/// words exactly if nothing but white space follows the second.
pub proof fn lemma_leading_words(s: Seq<char>)
    ensures
        ({
            let a0 = skip_spaces(s, 0);
            let b0 = skip_word(s, a0);
            let a1 = skip_spaces(s, b0);
            let b1 = skip_word(s, a1);
            let a2 = skip_spaces(s, b1);
            &&& b1 == predicate_end(s)
            &&& 0 <= a0 <= b0 <= a1 <= b1 <= a2 <= s.len()
            &&& words(s).len() < 3 <==> a2 >= s.len()
            &&& a2 < s.len() ==> {
                &&& a0 < b0 < a1 < b1 < a2
                &&& at_gap(s, b1)
                &&& words_from(s, b1).len() > 0
                &&& words(s) == seq![s.subrange(a0, b0), s.subrange(a1, b1)] + words_from(s, b1)
            }
        }),
{
    let a0 = skip_spaces(s, 0);
    lemma_skip_spaces(s, 0);
    let b0 = skip_word(s, a0);
    lemma_skip_word(s, a0);
    let a1 = skip_spaces(s, b0);
    lemma_skip_spaces(s, b0);
    let b1 = skip_word(s, a1);
    lemma_skip_word(s, a1);
    let a2 = skip_spaces(s, b1);
    lemma_skip_spaces(s, b1);
    if a0 < s.len() {
        lemma_word_is_not_empty(s, a0);
        assert(words(s) == seq![s.subrange(a0, b0)] + words_from(s, b0));
        if a1 < s.len() {
            lemma_word_is_not_empty(s, a1);
            assert(words_from(s, b0) == seq![s.subrange(a1, b1)] + words_from(s, b1));
            assert(words(s) == seq![s.subrange(a0, b0), s.subrange(a1, b1)] + words_from(s, b1));
            if a2 < s.len() {
                lemma_word_is_not_empty(s, a2);
            }
        }
    }
}

/// The last word of `s` is the one that is found from the end of `s`
/// backwards, and it is the only word from `from` on exactly if it begins
/// where the first of them does.
pub proof fn lemma_last_word(s: Seq<char>, from: int)
    requires
        at_gap(s, from),
        words_from(s, from).len() > 0,
    ensures
        ({
            let end = trim_end(s, s.len() as int);
            let start = word_start(s, end);
            &&& skip_spaces(s, from) <= start < end <= s.len()
            &&& !is_space(s[start])
            &&& words_from(s, from).last() == s.subrange(start, end)
            &&& words_from(s, from).len() == 1 <==> start == skip_spaces(s, from)
        }),
    decreases s.len() - from,
{
    let a = skip_spaces(s, from);
    let b = skip_word(s, a);
    lemma_skip_spaces(s, from);
    lemma_skip_word(s, a);
    let rest = words_from(s, b);
    assert(words_from(s, from) == seq![s.subrange(a, b)] + rest);
    if rest.len() == 0 {
        let c = skip_spaces(s, b);
        lemma_skip_spaces(s, b);
        if c < s.len() {
            lemma_word_is_not_empty(s, c);
        }
        lemma_trim_end_is(s, s.len() as int, b);
        lemma_word_start_is(s, b, a);
    } else {
        lemma_last_word(s, b);
        lemma_skip_spaces(s, b);
    }
}

/// A text that begins with a character that is no white space is trimmed by
/// cutting the white space off its end.
pub proof fn lemma_trimmed_range(s: Seq<char>, start: int, to: int)
    requires
        0 <= start < to <= s.len(),
        !is_space(s[start]),
    ensures
        start < trim_end(s, to) <= to,
        trimmed(s.subrange(start, to)) == s.subrange(start, trim_end(s, to)),
{
    let t = s.subrange(start, to);
    let e = trim_end(s, to);
    lemma_trim_end(s, to);
    assert(start < e) by {
        if e <= start {
            assert(is_space(s[start]));
        }
    }
    assert(skip_spaces(t, 0) == 0);
    assert forall|k: int| e - start <= k < t.len() implies is_space(#[trigger] t[k]) by {
        assert(t[k] == s[start + k]);
    }
    lemma_trim_end_is(t, t.len() as int, e - start);
    assert(t.subrange(0, e - start) == s.subrange(start, e));
}

/// In terms of positions, what `pattern_terms` says of a text with at least
/// three words.
pub proof fn lemma_pattern_positions(s: Seq<char>)
    requires
        skip_spaces(s, predicate_end(s)) < s.len(),
    ensures
        ({
            let a0 = skip_spaces(s, 0);
            let b0 = skip_word(s, a0);
            let a1 = skip_spaces(s, b0);
            let b1 = skip_word(s, a1);
            let a2 = skip_spaces(s, b1);
            let end = trim_end(s, s.len() as int);
            let last = word_start(s, end);
            &&& 0 <= a0 < b0 < a1 < b1 < a2 <= last < end <= s.len()
            &&& pattern_terms(s) == if last > a2 && is_graph_term(s.subrange(last, end)) {
                Some(
                    seq![
                        s.subrange(a0, b0),
                        s.subrange(a1, b1),
                        s.subrange(a2, trim_end(s, last)),
                        s.subrange(last, end),
                    ],
                )
            } else {
                Some(seq![s.subrange(a0, b0), s.subrange(a1, b1), s.subrange(a2, end)])
            }
            &&& last > a2 ==> a2 < trim_end(s, last) <= last
        }),
{
    let a0 = skip_spaces(s, 0);
    let b0 = skip_word(s, a0);
    let a1 = skip_spaces(s, b0);
    let b1 = skip_word(s, a1);
    let a2 = skip_spaces(s, b1);
    let end = trim_end(s, s.len() as int);
    let last = word_start(s, end);
    lemma_leading_words(s);
    lemma_last_word(s, b1);
    let w = words(s);
    let tail = words_from(s, b1);
    assert(w.last() == tail.last());
    assert(w.len() == 2 + tail.len());
    assert(w[0] == s.subrange(a0, b0));
    assert(w[1] == s.subrange(a1, b1));
    let rest = trimmed_from(s, b1);
    assert(rest == s.subrange(a2, end));
    if last > a2 {
        lemma_trimmed_range(s, a2, last);
        assert(rest.take(rest.len() - w.last().len()) == s.subrange(a2, last));
    }
}

/// A word: at least one character, and none of them white space.
pub open spec fn is_word(term: Seq<char>) -> bool {
    term.len() > 0 && forall|i: int| 0 <= i < term.len() ==> !is_space(#[trigger] term[i])
}

/// The shape of a parsed pattern: three terms or four; subject and predicate
/// are words; the object is not empty and has no white space at its ends; a
/// fourth term is a word that may name a graph.
pub proof fn lemma_terms_shape(s: Seq<char>)
    ensures
        pattern_terms(s) matches Some(terms) ==> {
            &&& terms.len() == 3 || terms.len() == 4
            &&& is_word(terms[0])
            &&& is_word(terms[1])
            &&& terms[2].len() > 0
            &&& !is_space(terms[2].first())
            &&& !is_space(terms[2].last())
            &&& terms.len() == 4 ==> is_word(terms[3]) && is_graph_term(terms[3])
        },
{
    lemma_leading_words(s);
    if pattern_terms(s) is Some {
        let a0 = skip_spaces(s, 0);
        let b0 = skip_word(s, a0);
        let a1 = skip_spaces(s, b0);
        let b1 = skip_word(s, a1);
        let a2 = skip_spaces(s, b1);
        let end = trim_end(s, s.len() as int);
        let last = word_start(s, end);
        lemma_pattern_positions(s);
        lemma_skip_word(s, a0);
        lemma_skip_word(s, a1);
        lemma_skip_spaces(s, b1);
        lemma_trim_end(s, s.len() as int);
        lemma_word_start(s, end);
        lemma_trim_end(s, last);
        let terms = pattern_terms(s).unwrap();
        assert(is_word(s.subrange(a0, b0)));
        assert(is_word(s.subrange(a1, b1)));
        if terms.len() == 4 {
            assert(is_word(s.subrange(last, end)));
        }
    }
}

/// A text that is not empty and has no white space at either end.
pub open spec fn is_trimmed(term: Seq<char>) -> bool {
    term.len() > 0 && !is_space(term.first()) && !is_space(term.last())
}

/// The last word of a trimmed text.
pub open spec fn last_word(term: Seq<char>) -> Seq<char> {
    term.subrange(word_start(term, term.len() as int), term.len() as int)
}

/// Subject, predicate and object with one space between each two.
pub open spec fn triple_text(subject: Seq<char>, predicate: Seq<char>, object: Seq<char>) -> Seq<
    char,
> {
    subject + seq![' '] + predicate + seq![' '] + object
}

proof fn lemma_leading_positions(
    subject: Seq<char>,
    predicate: Seq<char>,
    tail: Seq<char>,
)
    requires
        is_word(subject),
        is_word(predicate),
        is_trimmed(tail),
    ensures
        ({
            let s = triple_text(subject, predicate, tail);
            let b0 = subject.len() as int;
            let b1 = b0 + 1 + predicate.len();
            &&& skip_spaces(s, 0) == 0
            &&& skip_word(s, 0) == b0
            &&& skip_spaces(s, b0) == b0 + 1
            &&& skip_word(s, b0 + 1) == b1
            &&& skip_spaces(s, b1) == b1 + 1
            &&& trim_end(s, s.len() as int) == s.len()
            &&& s.subrange(0, b0) == subject
            &&& s.subrange(b0 + 1, b1) == predicate
            &&& s.subrange(b1 + 1, s.len() as int) == tail
            &&& s.len() == b1 + 1 + tail.len()
        }),
{
    let s = triple_text(subject, predicate, tail);
    let b0 = subject.len() as int;
    let b1 = b0 + 1 + predicate.len();
    assert(is_space(' ')) by {
        reveal(is_space);
    }
    assert forall|k: int| 0 <= k < b0 implies !is_space(#[trigger] s[k]) by {
        assert(s[k] == subject[k]);
    }
    assert(s[b0] == ' ');
    assert forall|k: int| b0 + 1 <= k < b1 implies !is_space(#[trigger] s[k]) by {
        assert(s[k] == predicate[k - b0 - 1]);
    }
    assert(s[b1] == ' ');
    assert(s[b1 + 1] == tail[0]);
    assert(s[s.len() - 1] == tail[tail.len() - 1]);
    lemma_skip_spaces_is(s, 0, 0);
    lemma_skip_word_is(s, 0, b0);
    lemma_skip_spaces_is(s, b0, b0 + 1);
    lemma_skip_word_is(s, b0 + 1, b1);
    lemma_skip_spaces_is(s, b1, b1 + 1);
    lemma_trim_end_is(s, s.len() as int, s.len() as int);
}

/// Where a word starts in a text does not depend on what stands before the
/// white space in front of the text.
proof fn lemma_word_start_after(prefix: Seq<char>, tail: Seq<char>)
    requires
        prefix.len() > 0,
        is_space(prefix.last()),
    ensures
        word_start(prefix + tail, (prefix + tail).len() as int) == prefix.len() + word_start(
            tail,
            tail.len() as int,
        ),
{
    let s = prefix + tail;
    let start = word_start(tail, tail.len() as int);
    lemma_word_start(tail, tail.len() as int);
    assert forall|k: int| prefix.len() + start <= k < s.len() implies !is_space(
        #[trigger] s[k],
    ) by {
        assert(s[k] == tail[k - prefix.len()]);
    }
    if start > 0 {
        assert(s[prefix.len() + start - 1] == tail[start - 1]);
    } else {
        assert(s[prefix.len() - 1] == prefix.last());
    }
    lemma_word_start_is(s, s.len() as int, prefix.len() + start);
}

/// Writing and parsing a triple pattern: subject and predicate are words, the
/// object is trimmed. Written with single spaces, the three are parsed back
/// as they were, unless the object has several words and its last one may
/// name a graph.
pub proof fn lemma_parse_written_triple(
    subject: Seq<char>,
    predicate: Seq<char>,
    object: Seq<char>,
)
    requires
        is_word(subject),
        is_word(predicate),
        is_trimmed(object),
        is_word(object) || !is_graph_term(last_word(object)),
    ensures
        pattern_terms(triple_text(subject, predicate, object)) == Some(
            seq![subject, predicate, object],
        ),
{
    let s = triple_text(subject, predicate, object);
    let b0 = subject.len() as int;
    let b1 = b0 + 1 + predicate.len();
    let a2 = b1 + 1;
    lemma_leading_positions(subject, predicate, object);
    lemma_pattern_positions(s);
    let prefix = subject + seq![' '] + predicate + seq![' '];
    assert(s == prefix + object);
    assert(prefix.last() == ' ');
    assert(is_space(' ')) by {
        reveal(is_space);
    }
    lemma_word_start_after(prefix, object);
    let start = word_start(object, object.len() as int);
    lemma_word_start(object, object.len() as int);
    assert(s.subrange(a2 + start, s.len() as int) == last_word(object));
    if is_word(object) {
        lemma_word_start_is(object, object.len() as int, 0);
    }
}

/// Writing and parsing a quad pattern: subject and predicate are words, the
/// object is trimmed, and the graph is a word that may name a graph. Written
/// with single spaces, the four are parsed back as they were.
pub proof fn lemma_parse_written_quad(
    subject: Seq<char>,
    predicate: Seq<char>,
    object: Seq<char>,
    graph: Seq<char>,
)
    requires
        is_word(subject),
        is_word(predicate),
        is_trimmed(object),
        is_word(graph),
        is_graph_term(graph),
    ensures
        pattern_terms(triple_text(subject, predicate, object + seq![' '] + graph)) == Some(
            seq![subject, predicate, object, graph],
        ),
{
    let tail = object + seq![' '] + graph;
    let s = triple_text(subject, predicate, tail);
    let b0 = subject.len() as int;
    let b1 = b0 + 1 + predicate.len();
    let a2 = b1 + 1;
    assert(is_space(' ')) by {
        reveal(is_space);
    }
    assert(tail.first() == object.first());
    assert(tail.last() == graph.last());
    lemma_leading_positions(subject, predicate, tail);
    lemma_pattern_positions(s);
    let last = s.len() - graph.len();
    let object_end = a2 + object.len();
    assert forall|k: int| last <= k < s.len() implies !is_space(#[trigger] s[k]) by {
        assert(s[k] == graph[k - last]);
    }
    assert(s[last - 1] == ' ');
    lemma_word_start_is(s, s.len() as int, last);
    assert(s.subrange(last, s.len() as int) == graph);
    assert(s[object_end - 1] == object.last());
    lemma_trim_end_is(s, last, object_end);
    assert(s.subrange(a2, object_end) == object);
}

/// `piece` stands in `s` at the position `at`.
pub open spec fn occurs_at(s: Seq<char>, piece: Seq<char>, at: int) -> bool {
    0 <= at && at + piece.len() <= s.len() && s.subrange(at, at + piece.len()) == piece
}

/// The first position at which `piece` stands in `s`, if it stands there at
/// all.
#[verifier::opaque]
pub open spec fn first_occurrence(s: Seq<char>, piece: Seq<char>) -> Option<int> {
    if exists|at: int| occurs_at(s, piece, at) {
        Some(
            choose|at: int|
                occurs_at(s, piece, at) && forall|before: int|
                    occurs_at(s, piece, before) ==> at <= before,
        )
    } else {
        None
    }
}

/// `s` with the first occurrence of `piece` taken out.
pub open spec fn without_first(s: Seq<char>, piece: Seq<char>) -> Seq<char> {
    match first_occurrence(s, piece) {
        Some(at) => s.subrange(0, at) + s.subrange(at + piece.len(), s.len() as int),
        None => s,
    }
}

/// A word with nothing but white space before it stands first where it
/// stands.
pub proof fn lemma_word_occurs_first(s: Seq<char>, start: int, end: int)
    requires
        0 <= start < end <= s.len(),
        forall|k: int| 0 <= k < start ==> is_space(#[trigger] s[k]),
        !is_space(s[start]),
    ensures
        first_occurrence(s, s.subrange(start, end)) == Some(start),
{
    reveal(first_occurrence);
    let piece = s.subrange(start, end);
    assert(occurs_at(s, piece, start));
    assert forall|before: int| occurs_at(s, piece, before) implies start <= before by {
        if before < start {
            assert(s.subrange(before, before + piece.len())[0] == s[before]);
            assert(piece[0] == s[start]);
        }
    }
    let found = first_occurrence(s, piece).unwrap();
    assert(occurs_at(s, piece, found));
}

/// Taking out a word that has nothing but white space before it leaves what
/// stood before the word and what stood after it.
pub proof fn lemma_without_word(s: Seq<char>, start: int, end: int)
    requires
        0 <= start < end <= s.len(),
        forall|k: int| 0 <= k < start ==> is_space(#[trigger] s[k]),
        !is_space(s[start]),
    ensures
        without_first(s, s.subrange(start, end)) == s.subrange(0, start) + s.subrange(
            end,
            s.len() as int,
        ),
{
    lemma_word_occurs_first(s, start, end);
}

/// A text with white space up to `start` and from `end` on, and none at
/// `start` nor just before `end`, is trimmed to what stands between the two.
pub proof fn lemma_trimmed_is(s: Seq<char>, start: int, end: int)
    requires
        0 <= start < end <= s.len(),
        forall|k: int| 0 <= k < start ==> is_space(#[trigger] s[k]),
        forall|k: int| end <= k < s.len() ==> is_space(#[trigger] s[k]),
        !is_space(s[start]),
        !is_space(s[end - 1]),
    ensures
        trimmed(s) == s.subrange(start, end),
{
    lemma_skip_spaces_is(s, 0, start);
    lemma_trim_end_is(s, s.len() as int, end);
}

proof fn lemma_removal_at(s: Seq<char>, a0: int, b0: int, a1: int, b1: int, a2: int, end: int)
    requires
        0 <= a0 < b0 < a1 < b1 < a2 < end <= s.len(),
        forall|k: int| 0 <= k < a0 ==> is_space(#[trigger] s[k]),
        forall|k: int| b0 <= k < a1 ==> is_space(#[trigger] s[k]),
        forall|k: int| b1 <= k < a2 ==> is_space(#[trigger] s[k]),
        forall|k: int| end <= k < s.len() ==> is_space(#[trigger] s[k]),
        !is_space(s[a0]),
        !is_space(s[a1]),
        !is_space(s[a2]),
        !is_space(s[end - 1]),
    ensures
        trimmed(without_first(without_first(s, s.subrange(a0, b0)), s.subrange(a1, b1)))
            == s.subrange(a2, end),
{
    let cut1 = b0 - a0;
    let s1 = s.subrange(0, a0) + s.subrange(b0, s.len() as int);
    lemma_without_word(s, a0, b0);
    let p1 = a1 - cut1;
    let q1 = b1 - cut1;
    assert(s1.subrange(p1, q1) == s.subrange(a1, b1));
    assert forall|k: int| 0 <= k < p1 implies is_space(#[trigger] s1[k]) by {
        if k >= a0 {
            assert(s1[k] == s[k + cut1]);
        } else {
            assert(s1[k] == s[k]);
        }
    }
    assert(s1[p1] == s[a1]);
    let s2 = s1.subrange(0, p1) + s1.subrange(q1, s1.len() as int);
    lemma_without_word(s1, p1, q1);
    let cut2 = cut1 + (b1 - a1);
    assert forall|k: int| 0 <= k < a2 - cut2 implies is_space(#[trigger] s2[k]) by {
        if k >= p1 {
            assert(s2[k] == s[k + cut2]);
        } else {
            assert(s2[k] == s1[k]);
        }
    }
    assert forall|k: int| end - cut2 <= k < s2.len() implies is_space(#[trigger] s2[k]) by {
        assert(s2[k] == s[k + cut2]);
    }
    assert(s2[a2 - cut2] == s[a2]);
    assert(s2[end - cut2 - 1] == s[end - 1]);
    lemma_trimmed_is(s2, a2 - cut2, end - cut2);
    assert(s2.subrange(a2 - cut2, end - cut2) =~= s.subrange(a2, end));
}

/// The object by removal: take the first occurrence of the subject out of the
/// text, then the first occurrence of the predicate out of what is left, and
/// trim. What remains is what follows the predicate in the text, trimmed: the
/// object, with the graph term where there is one.
pub proof fn lemma_object_by_removal(s: Seq<char>)
    requires
        words(s).len() >= 3,
    ensures
        trimmed(without_first(without_first(s, words(s)[0]), words(s)[1])) == trimmed_from(
            s,
            predicate_end(s),
        ),
{
    let a0 = skip_spaces(s, 0);
    let b0 = skip_word(s, a0);
    let a1 = skip_spaces(s, b0);
    let b1 = skip_word(s, a1);
    let a2 = skip_spaces(s, b1);
    let end = trim_end(s, s.len() as int);
    lemma_leading_words(s);
    lemma_skip_spaces(s, 0);
    lemma_skip_spaces(s, b0);
    lemma_skip_spaces(s, b1);
    lemma_trim_end(s, s.len() as int);
    assert(a2 < end) by {
        if end <= a2 {
            assert(is_space(s[a2]));
        }
    }
    assert(words(s)[0] == s.subrange(a0, b0) && words(s)[1] == s.subrange(a1, b1));
    lemma_removal_at(s, a0, b0, a1, b1, a2, end);
}

/// A triple or quad pattern: three terms, subject, predicate and object, or
/// four, with the graph last.
pub struct Pattern {
    terms: Vec<String>,
}

impl View for Pattern {
    type V = Seq<Seq<char>>;

    closed spec fn view(&self) -> Seq<Seq<char>> {
        texts(self.terms@)
    }
}

impl Pattern {
    #[verifier::type_invariant]
    spec fn has_arity(&self) -> bool {
        self.terms.len() == 3 || self.terms.len() == 4
    }

    /// The pattern made of `terms`, which must be three or four.
    pub fn new(terms: Vec<String>) -> (r: Result<Pattern, CottasError>)
        ensures
            match r {
                Ok(pattern) => (terms.len() == 3 || terms.len() == 4) && pattern@ == texts(terms@),
                Err(error) => error == CottasError::InvalidPatternArity && terms.len() != 3
                    && terms.len() != 4,
            },
    {
        if terms.len() == 3 || terms.len() == 4 {
            Ok(Pattern { terms })
        } else {
            Err(CottasError::InvalidPatternArity)
        }
    }

    /// The terms, in order.
    pub fn terms(&self) -> (r: &Vec<String>)
        ensures
            texts(r@) == self@,
            r.len() == 3 || r.len() == 4,
    {
        proof {
            use_type_invariant(self);
        }
        &self.terms
    }

    /// The subject term.
    pub fn subject(&self) -> (r: &str)
        ensures
            r@ == self@[0],
    {
        proof {
            use_type_invariant(self);
        }
        self.terms[0].as_str()
    }

    /// The predicate term.
    pub fn predicate(&self) -> (r: &str)
        ensures
            r@ == self@[1],
    {
        proof {
            use_type_invariant(self);
        }
        self.terms[1].as_str()
    }

    /// The object term.
    pub fn object(&self) -> (r: &str)
        ensures
            r@ == self@[2],
    {
        proof {
            use_type_invariant(self);
        }
        self.terms[2].as_str()
    }

    /// The graph term of a quad pattern.
    pub fn graph(&self) -> (r: Option<&str>)
        ensures
            match r {
                Some(term) => self@.len() == 4 && term@ == self@[3],
                None => self@.len() == 3,
            },
    {
        proof {
            use_type_invariant(self);
        }
        if self.terms.len() == 4 {
            Some(self.terms[3].as_str())
        } else {
            None
        }
    }

    /// Tells whether the pattern has a graph term.
    pub fn is_quad(&self) -> (r: bool)
        ensures
            r == (self@.len() == 4),
            !r == (self@.len() == 3),
    {
        proof {
            use_type_invariant(self);
        }
        self.terms.len() == 4
    }
}

fn scan_spaces(s: &Vec<char>, from: usize) -> (r: usize)
    requires
        from <= s.len(),
    ensures
        r == skip_spaces(s@, from as int),
        from <= r <= s.len(),
{
    let mut i: usize = from;
    while i < s.len() && is_whitespace(s[i])
        invariant
            from <= i <= s.len(),
            skip_spaces(s@, from as int) == skip_spaces(s@, i as int),
        decreases s.len() - i,
    {
        i += 1;
    }
    i
}

fn scan_word(s: &Vec<char>, from: usize) -> (r: usize)
    requires
        from <= s.len(),
    ensures
        r == skip_word(s@, from as int),
        from <= r <= s.len(),
{
    let mut i: usize = from;
    while i < s.len() && !is_whitespace(s[i])
        invariant
            from <= i <= s.len(),
            skip_word(s@, from as int) == skip_word(s@, i as int),
        decreases s.len() - i,
    {
        i += 1;
    }
    i
}

fn scan_back_spaces(s: &Vec<char>, to: usize) -> (r: usize)
    requires
        to <= s.len(),
    ensures
        r == trim_end(s@, to as int),
        r <= to,
{
    let mut i: usize = to;
    while i > 0 && is_whitespace(s[i - 1])
        invariant
            i <= to <= s.len(),
            trim_end(s@, to as int) == trim_end(s@, i as int),
        decreases i,
    {
        i -= 1;
    }
    i
}

fn scan_back_word(s: &Vec<char>, to: usize) -> (r: usize)
    requires
        to <= s.len(),
    ensures
        r == word_start(s@, to as int),
        r <= to,
{
    let mut i: usize = to;
    while i > 0 && !is_whitespace(s[i - 1])
        invariant
            i <= to <= s.len(),
            word_start(s@, to as int) == word_start(s@, i as int),
        decreases i,
    {
        i -= 1;
    }
    i
}

/// Parses a triple or quad pattern. The terms are separated by white space;
/// the object may hold white space itself. Fewer than three terms are
/// refused.
pub fn parse_triple_pattern(pattern: &str) -> (r: Result<Pattern, CottasError>)
    ensures
        match r {
            Ok(parsed) => pattern_terms(pattern@) == Some(parsed@),
            Err(error) => error == CottasError::MalformedPattern && pattern_terms(pattern@)
                is None,
        },
{
    let s = chars_of(pattern);
    let a0 = scan_spaces(&s, 0);
    let b0 = scan_word(&s, a0);
    let a1 = scan_spaces(&s, b0);
    let b1 = scan_word(&s, a1);
    let a2 = scan_spaces(&s, b1);
    proof {
        lemma_leading_words(s@);
    }
    if a2 >= s.len() {
        return Err(CottasError::MalformedPattern);
    }
    let end = scan_back_spaces(&s, s.len());
    let last = scan_back_word(&s, end);
    proof {
        lemma_pattern_positions(s@);
    }
    let mut terms: Vec<String> = Vec::new();
    terms.push(text_of_range(&s, a0, b0));
    terms.push(text_of_range(&s, a1, b1));
    if last > a2 && (s[last] == '<' || s[last] == '?' || s[last] == '$') {
        let object_end = scan_back_spaces(&s, last);
        terms.push(text_of_range(&s, a2, object_end));
        terms.push(text_of_range(&s, last, end));
    } else {
        terms.push(text_of_range(&s, a2, end));
    }
    Ok(Pattern { terms })
}

} // verus!
