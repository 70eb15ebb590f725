//! Small text operations over the characters of a string.

use vstd::prelude::*;
use vstd::string::*;

verus! {

/// Calls `String::push`: the string grows by the one character.
#[verifier::external_body]
pub(crate) fn push_char(s: &mut String, c: char)
    ensures
        final(s)@ == old(s)@.push(c),
{
    s.push(c)
}

/// Whether a character has the Unicode property `White_Space`.
pub open spec fn is_space(c: char) -> bool {
    let u = c as u32;
    ||| 0x09 <= u <= 0x0D
    ||| u == 0x20
    ||| u == 0x85
    ||| u == 0xA0
    ||| u == 0x1680
    ||| 0x2000 <= u <= 0x200A
    ||| u == 0x2028
    ||| u == 0x2029
    ||| u == 0x202F
    ||| u == 0x205F
    ||| u == 0x3000
}

/// Tells whether a character has the Unicode property `White_Space`.
pub fn is_whitespace(c: char) -> (b: bool)
    ensures
        b == is_space(c),
{
    let u: u32 = c as u32;
    (0x09 <= u && u <= 0x0D) || u == 0x20 || u == 0x85 || u == 0xA0 || u == 0x1680 || (0x2000 <= u
        && u <= 0x200A) || u == 0x2028 || u == 0x2029 || u == 0x202F || u == 0x205F || u == 0x3000
}

/// The characters of a text, in order.
pub fn chars_of(s: &str) -> (v: Vec<char>)
    ensures
        v@ == s@,
{
    let mut v: Vec<char> = Vec::new();
    for c in it: s.chars()
        invariant
            v@ == s@.subrange(0, it.index() as int),
            it.seq() == s@,
    {
        v.push(c);
    }
    v
}

/// The text made of the characters `v[from..to]`.
pub(crate) fn text_of_range(v: &Vec<char>, from: usize, to: usize) -> (s: String)
    requires
        from <= to <= v.len(),
    ensures
        s@ == v@.subrange(from as int, to as int),
{
    let mut s = String::new();
    let mut i: usize = from;
    while i < to
        invariant
            from <= i <= to <= v.len(),
            s@ == v@.subrange(from as int, i as int),
        decreases to - i,
    {
        push_char(&mut s, v[i]);
        i += 1;
    }
    s
}

/// A text without its leading white space.
pub open spec fn without_leading_space(s: Seq<char>) -> Seq<char>
    decreases s.len(),
{
    if s.len() > 0 && is_space(s[0]) {
        without_leading_space(s.drop_first())
    } else {
        s
    }
}

/// A text without its trailing white space.
pub open spec fn without_trailing_space(s: Seq<char>) -> Seq<char>
    decreases s.len(),
{
    if s.len() > 0 && is_space(s.last()) {
        without_trailing_space(s.drop_last())
    } else {
        s
    }
}

/// A text without the white space at either end.
pub open spec fn trimmed(s: Seq<char>) -> Seq<char> {
    without_trailing_space(without_leading_space(s))
}

/// The index of the first character of `v[from..to]` that is no white space,
/// or `to` if there is none.
fn skip_space(v: &Vec<char>, from: usize, to: usize) -> (i: usize)
    requires
        from <= to <= v.len(),
    ensures
        from <= i <= to,
        v@.subrange(i as int, to as int) == without_leading_space(v@.subrange(from as int, to as int)),
{
    let mut i: usize = from;
    while i < to && is_whitespace(v[i])
        invariant
            from <= i <= to <= v.len(),
            without_leading_space(v@.subrange(i as int, to as int)) == without_leading_space(
                v@.subrange(from as int, to as int),
            ),
        decreases to - i,
    {
        proof {
            let cur = v@.subrange(i as int, to as int);
            assert(cur.drop_first() == v@.subrange(i as int + 1, to as int));
        }
        i += 1;
    }
    i
}

/// The end of `v[from..to]` once its trailing white space is dropped.
fn skip_space_back(v: &Vec<char>, from: usize, to: usize) -> (j: usize)
    requires
        from <= to <= v.len(),
    ensures
        from <= j <= to,
        v@.subrange(from as int, j as int) == without_trailing_space(
            v@.subrange(from as int, to as int),
        ),
{
    let mut j: usize = to;
    while j > from && is_whitespace(v[j - 1])
        invariant
            from <= j <= to <= v.len(),
            without_trailing_space(v@.subrange(from as int, j as int)) == without_trailing_space(
                v@.subrange(from as int, to as int),
            ),
        decreases j - from,
    {
        proof {
            let cur = v@.subrange(from as int, j as int);
            assert(cur.drop_last() == v@.subrange(from as int, j as int - 1));
        }
        j -= 1;
    }
    j
}

/// The text `v[from..to]` without the white space at either end.
pub(crate) fn trim_range(v: &Vec<char>, from: usize, to: usize) -> (s: String)
    requires
        from <= to <= v.len(),
    ensures
        s@ == trimmed(v@.subrange(from as int, to as int)),
{
    let i = skip_space(v, from, to);
    let j = skip_space_back(v, i, to);
    text_of_range(v, i, j)
}

/// A text without the white space at either end.
pub fn trim(s: &str) -> (t: String)
    ensures
        t@ == trimmed(s@),
{
    let v = chars_of(s);
    assert(v@.subrange(0, v.len() as int) == v@);
    trim_range(&v, 0, v.len())
}

/// The index of the first occurrence of `c` in `s`, or the length of `s`
/// where there is none.
pub open spec fn first_index(s: Seq<char>, c: char) -> int
    decreases s.len(),
{
    if s.len() == 0 {
        0
    } else if s[0] == c {
        0
    } else {
        1 + first_index(s.drop_first(), c)
    }
}

/// The index of the first `c` in `v[from..to]`, or `to` where there is none.
pub(crate) fn find_char(v: &Vec<char>, from: usize, to: usize, c: char) -> (i: usize)
    requires
        from <= to <= v.len(),
    ensures
        from <= i <= to,
        i - from == first_index(v@.subrange(from as int, to as int), c),
{
    let mut i: usize = from;
    while i < to && v[i] != c
        invariant
            from <= i <= to <= v.len(),
            first_index(v@.subrange(from as int, to as int), c) == (i - from) + first_index(
                v@.subrange(i as int, to as int),
                c,
            ),
        decreases to - i,
    {
        proof {
            let cur = v@.subrange(i as int, to as int);
            assert(cur.drop_first() == v@.subrange(i as int + 1, to as int));
        }
        i += 1;
    }
    i
}

} // verus!
