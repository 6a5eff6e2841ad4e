use vstd::prelude::*;

verus! {

/// The characters with Unicode's White_Space property.
pub open spec fn is_space_char(c: char) -> bool {
    ('\u{9}' <= c && c <= '\u{d}') || c == ' ' || c == '\u{85}' || c == '\u{a0}' || c
        == '\u{1680}' || ('\u{2000}' <= c && c <= '\u{200a}') || c == '\u{2028}' || c
        == '\u{2029}' || c == '\u{202f}' || c == '\u{205f}' || c == '\u{3000}'
}

/// Whether `c` is white space, as `char::is_whitespace` decides it.
pub fn is_whitespace(c: char) -> (r: bool)
    ensures
        r == is_space_char(c),
{
    ('\u{9}' <= c && c <= '\u{d}') || c == ' ' || c == '\u{85}' || c == '\u{a0}' || c
        == '\u{1680}' || ('\u{2000}' <= c && c <= '\u{200a}') || c == '\u{2028}' || c
        == '\u{2029}' || c == '\u{202f}' || c == '\u{205f}' || c == '\u{3000}'
}

/// `s` without its leading white space.
pub open spec fn trim_start(s: Seq<char>) -> Seq<char>
    decreases s.len(),
{
    if s.len() > 0 && is_space_char(s[0]) {
        trim_start(s.drop_first())
    } else {
        s
    }
}

/// `s` without its trailing white space.
pub open spec fn trim_end(s: Seq<char>) -> Seq<char>
    decreases s.len(),
{
    if s.len() > 0 && is_space_char(s.last()) {
        trim_end(s.drop_last())
    } else {
        s
    }
}

/// `s` without white space at either end.
pub open spec fn trim(s: Seq<char>) -> Seq<char> {
    trim_end(trim_start(s))
}

/// The pieces of `s` between line feeds, in order; a text without any is one line.
pub open spec fn split_lines(s: Seq<char>) -> Seq<Seq<char>>
    decreases s.len(),
{
    if s.len() == 0 {
        seq![Seq::<char>::empty()]
    } else {
        let prev = split_lines(s.drop_last());
        if s.last() == '\n' {
            prev.push(Seq::<char>::empty())
        } else {
            prev.update(prev.len() - 1, prev.last().push(s.last()))
        }
    }
}

/// Bounds `(a, b)` such that `v[a..b]` is `v[start..end]` trimmed.
pub fn trim_bounds(v: &Vec<char>, start: usize, end: usize) -> (r: (usize, usize))
    requires
        start <= end <= v@.len(),
    ensures
        start <= r.0 <= r.1 <= end,
        v@.subrange(r.0 as int, r.1 as int) == trim(v@.subrange(start as int, end as int)),
{
    let ghost s = v@.subrange(start as int, end as int);
    let mut a: usize = start;
    while a < end && is_whitespace(v[a])
        invariant
            start <= a <= end <= v@.len(),
            s == v@.subrange(start as int, end as int),
            trim_start(v@.subrange(a as int, end as int)) == trim_start(s),
        decreases end - a,
    {
        assert(v@.subrange(a as int, end as int).drop_first() =~= v@.subrange(
            a as int + 1,
            end as int,
        ));
        a = a + 1;
    }
    assert(trim_start(s) == v@.subrange(a as int, end as int)) by {
        let t = v@.subrange(a as int, end as int);
        if a < end {
            assert(t[0] == v@[a as int]);
        }
    }
    let mut b: usize = end;
    while a < b && is_whitespace(v[b - 1])
        invariant
            start <= a <= b <= end <= v@.len(),
            trim_end(v@.subrange(a as int, b as int)) == trim(s),
        decreases b - a,
    {
        assert(v@.subrange(a as int, b as int).drop_last() =~= v@.subrange(
            a as int,
            b as int - 1,
        ));
        b = b - 1;
    }
    proof {
        let t = v@.subrange(a as int, b as int);
        if a < b {
            assert(t.last() == v@[b - 1]);
        }
    }
    (a, b)
}

/// Relies on `str::chars`, collected into a `Vec`: the characters of `s` in order.
/// A `str` holds at most `isize::MAX` bytes and each character takes at least one.
#[verifier::external_body]
pub(crate) fn chars_of(s: &str) -> (r: Vec<char>)
    ensures
        r@ == s@,
        r@.len() <= isize::MAX,
{
    s.chars().collect()
}

/// Relies on `String`'s `FromIterator<&char>`: a string holding `v[start..end]`.
#[verifier::external_body]
pub(crate) fn string_of(v: &Vec<char>, start: usize, end: usize) -> (r: String)
    requires
        start <= end <= v@.len(),
    ensures
        r@ == v@.subrange(start as int, end as int),
{
    v[start..end].iter().collect()
}

} // verus!
