//! Characters and text: the white space that separates the terms of a
//! pattern, and the move between `str` and its characters.

use vstd::prelude::*;

verus! {

/// `String::push` of the standard library appends one character to the end of
/// the string and changes nothing else.
pub assume_specification[ String::push ](s: &mut String, c: char)
    ensures
        final(s)@ == old(s)@.push(c),
;

/// White space as `char::is_whitespace` has it: the code points with the
/// Unicode property `White_Space`.
#[verifier::opaque]
pub open spec fn is_space(c: char) -> bool {
    let n = c as u32;
    ||| 0x09 <= n <= 0x0D
    ||| n == 0x20
    ||| n == 0x85
    ||| n == 0xA0
    ||| n == 0x1680
    ||| 0x2000 <= n <= 0x200A
    ||| n == 0x2028
    ||| n == 0x2029
    ||| n == 0x202F
    ||| n == 0x205F
    ||| n == 0x3000
}

/// `s` ends with `suffix`.
pub open spec fn has_suffix(s: Seq<char>, suffix: Seq<char>) -> bool {
    suffix.len() <= s.len() && s.subrange(s.len() - suffix.len(), s.len() as int) == suffix
}

/// The texts of `parts` in order, with `sep` between each two neighbours.
pub open spec fn joined(parts: Seq<Seq<char>>, sep: Seq<char>) -> Seq<char>
    decreases parts.len(),
{
    if parts.len() == 0 {
        Seq::empty()
    } else if parts.len() == 1 {
        parts[0]
    } else {
        joined(parts.drop_last(), sep) + sep + parts.last()
    }
}

/// The views of a list of strings.
pub open spec fn texts(list: Seq<String>) -> Seq<Seq<char>> {
    Seq::new(list.len(), |i: int| list[i]@)
}

/// Tells whether `c` is white space.
pub fn is_whitespace(c: char) -> (r: bool)
    ensures
        r == is_space(c),
{
    reveal(is_space);
    let n: u32 = c as u32;
    (0x09 <= n && n <= 0x0D) || n == 0x20 || n == 0x85 || n == 0xA0 || n == 0x1680 || (0x2000 <= n
        && n <= 0x200A) || n == 0x2028 || n == 0x2029 || n == 0x202F || n == 0x205F || n == 0x3000
}

/// The characters of `s`, in order.
pub fn chars_of(s: &str) -> (r: Vec<char>)
    ensures
        r@ == s@,
{
    let mut out: Vec<char> = Vec::new();
    for c in it: s.chars()
        invariant
            it.seq() == s@,
            out@ == s@.take(it.index()),
    {
        out.push(c);
    }
    out
}

/// Appends the characters `chars[from..to]` to `out`.
pub fn push_range(out: &mut String, chars: &Vec<char>, from: usize, to: usize)
    requires
        from <= to <= chars.len(),
    ensures
        final(out)@ == old(out)@ + chars@.subrange(from as int, to as int),
{
    let mut i: usize = from;
    while i < to
        invariant
            from <= i <= to <= chars.len(),
            out@ == old(out)@ + chars@.subrange(from as int, i as int),
        decreases to - i,
    {
        out.push(chars[i]);
        i += 1;
    }
}

/// The string made of the characters `chars[from..to]`.
pub fn text_of_range(chars: &Vec<char>, from: usize, to: usize) -> (r: String)
    requires
        from <= to <= chars.len(),
    ensures
        r@ == chars@.subrange(from as int, to as int),
{
    let mut out = String::new();
    push_range(&mut out, chars, from, to);
    out
}

/// Tells whether two texts hold the same characters.
pub fn same_text(a: &str, b: &str) -> (r: bool)
    ensures
        r == (a@ == b@),
{
    let x = chars_of(a);
    let y = chars_of(b);
    if x.len() != y.len() {
        return false;
    }
    let mut i: usize = 0;
    while i < x.len()
        invariant
            i <= x.len() == y.len(),
            x@ == a@,
            y@ == b@,
            x@.take(i as int) == y@.take(i as int),
        decreases x.len() - i,
    {
        if x[i] != y[i] {
            return false;
        }
        i += 1;
    }
    assert(x@.take(i as int) == x@ && y@.take(i as int) == y@);
    true
}

/// Tells whether the characters `s` end with `suffix`.
pub fn ends_with(s: &Vec<char>, suffix: &str) -> (r: bool)
    ensures
        r == has_suffix(s@, suffix@),
{
    let t = chars_of(suffix);
    if t.len() > s.len() {
        return false;
    }
    let base: usize = s.len() - t.len();
    let ghost tail = s@.subrange(base as int, s.len() as int);
    let mut i: usize = 0;
    while i < t.len()
        invariant
            i <= t.len(),
            base + t.len() == s.len(),
            t@ == suffix@,
            tail == s@.subrange(base as int, s.len() as int),
            tail.take(i as int) == t@.take(i as int),
        decreases t.len() - i,
    {
        if s[base + i] != t[i] {
            return false;
        }
        i += 1;
    }
    assert(tail.take(i as int) == tail && t@.take(i as int) == t@);
    true
}

/// Joins `parts` with `sep` between each two neighbours.
pub fn join(parts: &Vec<String>, sep: &str) -> (r: String)
    ensures
        r@ == joined(texts(parts@), sep@),
{
    let mut out = String::new();
    let ghost all = texts(parts@);
    let mut i: usize = 0;
    while i < parts.len()
        invariant
            i <= parts.len(),
            all == texts(parts@),
            out@ == joined(all.take(i as int), sep@),
        decreases parts.len() - i,
    {
        proof {
            let next = all.take(i + 1);
            assert(next.drop_last() == all.take(i as int));
        }
        if i > 0 {
            out.append(sep);
        }
        out.append(parts[i].as_str());
        i += 1;
    }
    assert(all.take(i as int) == all);
    out
}

} // verus!
