use crate::config::{is_digit, is_duration};
use crate::text::string_of;
use vstd::prelude::*;

verus! {

/// Position of the decimal point in a display time numeral, or its length where it has none.
pub open spec fn dot_index(s: Seq<char>) -> int {
    if exists|k: int| 0 <= k < s.len() && s[k] == '.' {
        choose|k: int| 0 <= k < s.len() && s[k] == '.'
    } else {
        s.len() as int
    }
}

/// The digits after the decimal point.
pub open spec fn fraction_digits(s: Seq<char>) -> Seq<char> {
    if dot_index(s) < s.len() {
        s.skip(dot_index(s) + 1)
    } else {
        Seq::empty()
    }
}

/// The digits before the decimal point once it is moved three places to the right.
pub open spec fn shifted_whole(s: Seq<char>) -> Seq<char> {
    let f = fraction_digits(s);
    s.take(dot_index(s)) + Seq::new(3, |k: int| if k < f.len() { f[k] } else { '0' })
}

/// The digits after the decimal point once it is moved three places to the right.
pub open spec fn shifted_fraction(s: Seq<char>) -> Seq<char> {
    let f = fraction_digits(s);
    if f.len() > 3 {
        f.skip(3)
    } else {
        Seq::empty()
    }
}

/// `s` without leading zeros, keeping at least one digit.
pub open spec fn strip_leading_zeros(s: Seq<char>) -> Seq<char>
    decreases s.len(),
{
    if s.len() > 1 && s[0] == '0' {
        strip_leading_zeros(s.drop_first())
    } else {
        s
    }
}

/// `s` without trailing zeros.
pub open spec fn strip_trailing_zeros(s: Seq<char>) -> Seq<char>
    decreases s.len(),
{
    if s.len() > 0 && s.last() == '0' {
        strip_trailing_zeros(s.drop_last())
    } else {
        s
    }
}

/// A display time numeral in seconds, written as milliseconds: the shortest
/// whole part, a point, and the shortest fraction (`0` where there is none).
/// `5.5` gives `5500.0`, `0.0001` gives `0.1`.
pub open spec fn millis_text(s: Seq<char>) -> Seq<char> {
    let f = strip_trailing_zeros(shifted_fraction(s));
    strip_leading_zeros(shifted_whole(s)) + seq!['.'] + if f.len() == 0 {
        seq!['0']
    } else {
        f
    }
}

/// Position of the decimal point of the numeral `v`, or its length.
fn find_dot(v: &Vec<char>) -> (r: usize)
    requires
        is_duration(v@),
    ensures
        r == dot_index(v@),
        r <= v@.len(),
{
    let mut i: usize = 0;
    while i < v.len() && v[i] != '.'
        invariant
            i <= v@.len(),
            forall|k: int| 0 <= k < i ==> v@[k] != '.',
        decreases v@.len() - i,
    {
        i = i + 1;
    }
    if i < v.len() {
        let ghost k = choose|k: int| 0 <= k < v@.len() && v@[k] == '.';
        assert(v@[k] == '.' && v@[i as int] == '.');
    }
    i
}

/// The numeral `v` in seconds, written as milliseconds.
pub fn millis_of(v: &Vec<char>) -> (r: String)
    requires
        is_duration(v@),
    ensures
        r@ == millis_text(v@),
{
    let ghost s = v@;
    let dot = find_dot(v);
    let ghost f = fraction_digits(s);
    let mut whole: Vec<char> = Vec::new();
    let mut i: usize = 0;
    while i < dot
        invariant
            dot == dot_index(s) <= s.len(),
            s == v@,
            i <= dot,
            whole@ == s.take(i as int),
        decreases dot - i,
    {
        whole.push(v[i]);
        assert(s.take(i + 1) =~= s.take(i as int).push(s[i as int]));
        i = i + 1;
    }
    assert(f.len() == if dot < v@.len() { v@.len() - dot - 1 } else { 0 });
    let mut k: usize = 0;
    while k < 3
        invariant
            dot == dot_index(s) <= s.len(),
            s == v@,
            f == fraction_digits(s),
            f.len() == if dot < s.len() { s.len() - dot - 1 } else { 0 },
            k <= 3,
            whole@ == s.take(dot as int) + Seq::new(
                k as nat,
                |j: int| if j < f.len() { f[j] } else { '0' },
            ),
        decreases 3 - k,
    {
        let c = if dot < v.len() && k < v.len() - dot - 1 {
            assert(f[k as int] == v@[dot + 1 + k]);
            v[dot + 1 + k]
        } else {
            '0'
        };
        whole.push(c);
        assert(s.take(dot as int) + Seq::new(
            (k + 1) as nat,
            |j: int| if j < f.len() { f[j] } else { '0' },
        ) =~= (s.take(dot as int) + Seq::new(
            k as nat,
            |j: int| if j < f.len() { f[j] } else { '0' },
        )).push(c));
        k = k + 1;
    }
    assert(whole@ == shifted_whole(s));
    // leading zeros of the whole part
    let mut a: usize = 0;
    assert(whole@.skip(0) =~= whole@);
    while a < whole.len() - 1 && whole[a] == '0'
        invariant
            a < whole@.len(),
            whole@.len() >= 3,
            strip_leading_zeros(whole@.skip(a as int)) == strip_leading_zeros(shifted_whole(s)),
            whole@ == shifted_whole(s),
        decreases whole@.len() - a,
    {
        assert(whole@.skip(a as int).drop_first() =~= whole@.skip(a + 1));
        a = a + 1;
    }
    assert(strip_leading_zeros(whole@.skip(a as int)) == whole@.skip(a as int));
    let mut out: Vec<char> = Vec::new();
    let mut j: usize = a;
    while j < whole.len()
        invariant
            a <= j <= whole@.len(),
            out@ == whole@.subrange(a as int, j as int),
        decreases whole@.len() - j,
    {
        out.push(whole[j]);
        assert(whole@.subrange(a as int, j + 1) =~= whole@.subrange(a as int, j as int).push(
            whole@[j as int],
        ));
        j = j + 1;
    }
    assert(out@ =~= strip_leading_zeros(shifted_whole(s)));
    out.push('.');
    let ghost head = out@;
    // the fraction: digits past the third after the point, without trailing zeros
    let lo: usize = if dot < v.len() && v.len() - dot > 4 {
        dot + 4
    } else {
        v.len()
    };
    assert(shifted_fraction(s) =~= s.subrange(lo as int, s.len() as int));
    let mut b: usize = v.len();
    while lo < b && v[b - 1] == '0'
        invariant
            lo <= b <= v@.len(),
            s == v@,
            strip_trailing_zeros(s.subrange(lo as int, b as int)) == strip_trailing_zeros(
                shifted_fraction(s),
            ),
        decreases b - lo,
    {
        assert(s.subrange(lo as int, b as int).drop_last() =~= s.subrange(lo as int, b - 1));
        b = b - 1;
    }
    if lo < b {
        assert(s.subrange(lo as int, b as int).last() == s[b - 1]);
    }
    assert(strip_trailing_zeros(s.subrange(lo as int, b as int)) == s.subrange(lo as int, b as int));
    if lo == b {
        out.push('0');
    } else {
        let mut m: usize = lo;
        while m < b
            invariant
                lo <= m <= b <= v@.len(),
                s == v@,
                out@ == head + s.subrange(lo as int, m as int),
            decreases b - m,
        {
            out.push(v[m]);
            assert(head + s.subrange(lo as int, m + 1) =~= (head + s.subrange(
                lo as int,
                m as int,
            )).push(s[m as int]));
            m = m + 1;
        }
    }
    assert(out@ =~= millis_text(s));
    string_of(&out, 0, out.len())
}

} // verus!
