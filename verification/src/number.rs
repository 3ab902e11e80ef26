//! The decimal value of a JSON number's text, as far as the `@version`
//! entry needs it: whether the number is 1.1.
use vstd::prelude::*;
use crate::text::{spec_find, find_char, lemma_find};

verus! {

/// A decimal digit.
pub open spec fn is_digit(c: char) -> bool {
    '0' <= c && c <= '9'
}

/// A non-empty run of decimal digits.
pub open spec fn digit_seq(s: Seq<char>) -> bool {
    s.len() > 0 && forall|i: int| 0 <= i < s.len() ==> is_digit(#[trigger] s[i])
}

/// The value of a run of decimal digits.
pub open spec fn digits_value(s: Seq<char>) -> nat
    decreases s.len(),
{
    if s.len() == 0 {
        0
    } else {
        digits_value(s.drop_last()) * 10 + ((s.last() as int) - ('0' as int)) as nat
    }
}

/// Where the exponent marker (`e` or `E`) is, or the length when there is none.
pub open spec fn exp_start(n: Seq<char>) -> int {
    match (spec_find(n, 'e'), spec_find(n, 'E')) {
        (Some(a), Some(b)) => if a <= b { a } else { b },
        (Some(a), None) => a,
        (None, Some(b)) => b,
        (None, None) => n.len() as int,
    }
}

/// Whether the number has a fraction: a point before the exponent.
pub open spec fn has_frac(n: Seq<char>) -> bool {
    spec_find(n, '.') matches Some(d) && d < exp_start(n)
}

/// Where the integer part ends.
pub open spec fn int_end(n: Seq<char>) -> int {
    if has_frac(n) { spec_find(n, '.')->0 } else { exp_start(n) }
}

/// The digits of the integer part.
pub open spec fn int_part(n: Seq<char>) -> Seq<char> {
    n.subrange(0, int_end(n))
}

/// The digits of the fraction, if any.
pub open spec fn frac_part(n: Seq<char>) -> Seq<char> {
    if has_frac(n) { n.subrange(int_end(n) + 1, exp_start(n)) } else { Seq::empty() }
}

/// The text of the exponent after its marker, if any.
pub open spec fn exp_part(n: Seq<char>) -> Seq<char> {
    if exp_start(n) < n.len() { n.subrange(exp_start(n) + 1, n.len() as int) } else { Seq::empty() }
}

/// The digits of an exponent, without its sign.
pub open spec fn exp_digits(e: Seq<char>) -> Seq<char> {
    if e.len() > 0 && (e[0] == '-' || e[0] == '+') { e.drop_first() } else { e }
}

/// The value of an exponent.
pub open spec fn exp_value(e: Seq<char>) -> int {
    if e.len() > 0 && e[0] == '-' { -(digits_value(e.drop_first()) as int) } else { digits_value(exp_digits(e)) as int }
}

/// The text has the form of a non-negative decimal number: digits, then
/// optionally a point and digits, then optionally `e` or `E`, a sign and digits.
pub open spec fn number_form(n: Seq<char>) -> bool {
    &&& digit_seq(int_part(n))
    &&& has_frac(n) ==> digit_seq(frac_part(n))
    &&& exp_start(n) < n.len() ==> digit_seq(exp_digits(exp_part(n)))
}

/// `d` is zeros, then `11` at position `z`, then zeros.
pub open spec fn eleven_at(d: Seq<char>, z: int) -> bool {
    &&& 0 <= z && z + 2 <= d.len()
    &&& forall|i: int| 0 <= i < z ==> #[trigger] d[i] == '0'
    &&& d[z] == '1' && d[z + 1] == '1'
    &&& forall|i: int| z + 2 <= i < d.len() ==> #[trigger] d[i] == '0'
}

/// The number's text denotes exactly the decimal 1.1: its digits (integer
/// part then fraction) are zeros, `11`, then `k` zeros, and the exponent
/// puts the point between the two ones.
pub open spec fn denotes_one_point_one(n: Seq<char>) -> bool {
    let d = int_part(n) + frac_part(n);
    &&& number_form(n)
    &&& exists|z: int| eleven_at(d, z)
        && exp_value(exp_part(n)) == frac_part(n).len() - 1 - (d.len() - z - 2)
}

/// Checks that the characters of `n` from `a` to `b` are all digits, and
/// that there is at least one.
fn digits_between(n: &str, a: usize, b: usize) -> (r: bool)
    requires
        a <= b <= n@.len(),
    ensures
        r == digit_seq(n@.subrange(a as int, b as int)),
{
    if a == b {
        return false;
    }
    let mut i = a;
    while i < b
        invariant
            a <= i <= b,
            b <= n@.len(),
            forall|j: int| a <= j < i ==> is_digit(#[trigger] n@[j]),
        decreases b - i,
    {
        let c = n.get_char(i);
        if !('0' <= c && c <= '9') {
            proof {
                assert(n@.subrange(a as int, b as int)[i - a] == c);
            }
            return false;
        }
        i = i + 1;
    }
    proof {
        assert forall|j: int| 0 <= j < n@.subrange(a as int, b as int).len() implies is_digit(#[trigger] n@.subrange(a as int, b as int)[j]) by {
            assert(n@.subrange(a as int, b as int)[j] == n@[a + j]);
        }
    }
    true
}

proof fn lemma_digits_value_mono(s: Seq<char>, c: char)
    requires
        is_digit(c),
    ensures
        digits_value(s.push(c)) >= digits_value(s),
        digits_value(s.push(c)) == digits_value(s) * 10 + ((c as int) - ('0' as int)),
{
    assert(s.push(c).drop_last() =~= s);
}

/// The value of the digits of `n` from `a` to `b`, capped at 2^65.
fn digits_value_between(n: &str, a: usize, b: usize) -> (r: u128)
    requires
        a <= b <= n@.len(),
        forall|j: int| a <= j < b ==> is_digit(#[trigger] n@[j]),
    ensures
        r == (if digits_value(n@.subrange(a as int, b as int)) > 0x2_0000_0000_0000_0000 {
            0x2_0000_0000_0000_0000
        } else {
            digits_value(n@.subrange(a as int, b as int))
        }),
{
    let cap: u128 = 0x2_0000_0000_0000_0000;
    let mut acc: u128 = 0;
    let mut i = a;
    proof {
        assert(n@.subrange(a as int, a as int) =~= Seq::<char>::empty());
    }
    while i < b
        invariant
            a <= i <= b,
            b <= n@.len(),
            forall|j: int| a <= j < b ==> is_digit(#[trigger] n@[j]),
            cap == 0x2_0000_0000_0000_0000u128,
            acc == (if digits_value(n@.subrange(a as int, i as int)) > cap { cap as nat } else { digits_value(n@.subrange(a as int, i as int)) }),
        decreases b - i,
    {
        let c = n.get_char(i);
        let d = (c as u32 - '0' as u32) as u128;
        proof {
            assert(is_digit(n@[i as int]));
            assert(n@.subrange(a as int, i + 1) =~= n@.subrange(a as int, i as int).push(c));
            lemma_digits_value_mono(n@.subrange(a as int, i as int), c);
        }
        if acc >= cap {
            acc = cap;
        } else {
            let next = acc * 10 + d;
            acc = if next > cap { cap } else { next };
        }
        i = i + 1;
    }
    acc
}

/// The position of the exponent marker, whether there is a fraction, and
/// where the integer part ends.
fn layout(n: &str) -> (r: (usize, bool, usize))
    ensures
        r.0 as int == exp_start(n@),
        r.1 == has_frac(n@),
        r.2 as int == int_end(n@),
        r.2 <= r.0 <= n@.len(),
        r.1 ==> r.2 < r.0,
{
    proof {
        lemma_find(n@, 'e');
        lemma_find(n@, 'E');
        lemma_find(n@, '.');
    }
    let len = n.unicode_len();
    let ie: usize = match (find_char(n, 'e'), find_char(n, 'E')) {
        (Some(a), Some(b)) => if a <= b { a } else { b },
        (Some(a), None) => a,
        (None, Some(b)) => b,
        (None, None) => len,
    };
    let dot = find_char(n, '.');
    let frac = match dot {
        Some(d) => d < ie,
        None => false,
    };
    let iend: usize = match dot {
        Some(d) => if d < ie { d } else { ie },
        None => ie,
    };
    (ie, frac, iend)
}

/// The digits of the integer part followed by those of the fraction.
fn collect_digits(n: &str, ie: usize, frac: bool, iend: usize) -> (d: Vec<char>)
    requires
        ie as int == exp_start(n@),
        frac == has_frac(n@),
        iend as int == int_end(n@),
        iend <= ie <= n@.len(),
        frac ==> iend < ie,
    ensures
        d@ == int_part(n@) + frac_part(n@),
{
    let mut d: Vec<char> = Vec::new();
    let mut i: usize = 0;
    while i < iend
        invariant
            i <= iend,
            iend <= n@.len(),
            d@ =~= n@.subrange(0, i as int),
        decreases iend - i,
    {
        d.push(n.get_char(i));
        i = i + 1;
    }
    if frac {
        let mut j: usize = iend + 1;
        while j < ie
            invariant
                iend + 1 <= j <= ie,
                ie <= n@.len(),
                d@ =~= n@.subrange(0, iend as int) + n@.subrange(iend + 1, j as int),
            decreases ie - j,
        {
            d.push(n.get_char(j));
            j = j + 1;
        }
        assert(d@ =~= int_part(n@) + frac_part(n@));
    } else {
        assert(d@ =~= int_part(n@) + frac_part(n@));
    }
    d
}

/// Where `11` stands in digits of the form zeros, `11`, zeros, if they have it.
fn eleven_position(d: &Vec<char>) -> (r: Option<usize>)
    ensures
        r matches Some(z) ==> eleven_at(d@, z as int),
        r is None ==> forall|y: int| !eleven_at(d@, y),
{
    let mut z: usize = 0;
    while z < d.len() && d[z] == '0'
        invariant
            z <= d@.len(),
            forall|k: int| 0 <= k < z ==> d@[k] == '0',
        decreases d@.len() - z,
    {
        z = z + 1;
    }
    if z >= d.len() || d.len() - z < 2 || d[z] != '1' || d[z + 1] != '1' {
        proof {
            assert forall|y: int| !eleven_at(d@, y) by {
                if eleven_at(d@, y) {
                    if y < z {
                        assert(d@[y] == '0');
                    } else if y > z {
                        assert(d@[z as int] == '0');
                    }
                }
            }
        }
        return None;
    }
    let mut t: usize = z + 2;
    while t < d.len()
        invariant
            z + 2 <= t <= d@.len(),
            d@[z as int] == '1',
            d@[z + 1] == '1',
            forall|k: int| 0 <= k < z ==> d@[k] == '0',
            forall|k: int| z + 2 <= k < t ==> d@[k] == '0',
        decreases d@.len() - t,
    {
        if d[t] != '0' {
            proof {
                assert forall|y: int| !eleven_at(d@, y) by {
                    if eleven_at(d@, y) {
                        if y < z {
                            assert(d@[y] == '0');
                        } else if y > z {
                            assert(d@[z as int] == '0');
                        } else {
                            assert(d@[t as int] == '0');
                        }
                    }
                }
            }
            return None;
        }
        t = t + 1;
    }
    Some(z)
}

/// Checks the exponent: whether it has the right form, whether it is
/// negative, and where its digits start.
fn exponent_form(n: &str, ie: usize) -> (r: (bool, bool, usize))
    requires
        ie as int == exp_start(n@),
        ie < n@.len(),
    ensures
        r.0 == digit_seq(exp_digits(exp_part(n@))),
        r.2 <= n@.len(),
        exp_digits(exp_part(n@)) == n@.subrange(r.2 as int, n@.len() as int),
        r.1 == (exp_part(n@).len() > 0 && exp_part(n@)[0] == '-'),
{
    let len = n.unicode_len();
    let mut neg = false;
    let mut es: usize = ie + 1;
    if ie + 1 < len {
        let c = n.get_char(ie + 1);
        if c == '-' || c == '+' {
            neg = c == '-';
            es = ie + 2;
        }
    }
    proof {
        let e = exp_part(n@);
        assert(e =~= n@.subrange(ie + 1, len as int));
        if ie + 1 < len {
            assert(e[0] == n@[ie + 1]);
        }
        assert(exp_digits(e) =~= n@.subrange(es as int, len as int));
    }
    let ok = digits_between(n, es, len);
    (ok, neg, es)
}

/// Checks that a JSON number's text denotes 1.1 (see [`denotes_one_point_one`]).
pub fn is_one_point_one(n: &str) -> (r: bool)
    ensures
        r == denotes_one_point_one(n@),
{
    let len = n.unicode_len();
    let (ie, frac, iend) = layout(n);
    if !digits_between(n, 0, iend) {
        return false;
    }
    if frac && !digits_between(n, iend + 1, ie) {
        return false;
    }
    let mut neg = false;
    let mut es: usize = len;
    if ie < len {
        let (ok, ng, start) = exponent_form(n, ie);
        if !ok {
            return false;
        }
        neg = ng;
        es = start;
        proof {
            assert forall|j: int| es <= j < len implies is_digit(#[trigger] n@[j]) by {
                assert(n@.subrange(es as int, len as int)[j - es] == n@[j]);
            }
        }
    } else {
        proof {
            assert(exp_part(n@) =~= Seq::<char>::empty());
            assert(n@.subrange(len as int, len as int) =~= exp_part(n@));
        }
    }
    assert(number_form(n@));
    let d = collect_digits(n, ie, frac, iend);
    let ghost dd = int_part(n@) + frac_part(n@);
    let z = match eleven_position(&d) {
        Some(z) => z,
        None => {
            return false;
        },
    };
    proof {
        assert forall|y: int| eleven_at(dd, y) implies y == z by {
            if y < z {
                assert(dd[y] == '0');
            } else if y > z {
                assert(dd[z as int] == '0');
            }
        }
    }
    let flen: usize = if frac { ie - iend - 1 } else { 0 };
    assert(flen as int == frac_part(n@).len());
    let k1: u128 = (d.len() - z - 2) as u128 + 1;
    let ev: u128 = digits_value_between(n, es, len);
    proof {
        if ie < len {
            if neg {
                assert(exp_part(n@).drop_first() =~= exp_digits(exp_part(n@)));
            }
        } else {
            assert(n@.subrange(es as int, len as int) =~= Seq::<char>::empty());
        }
    }
    let flen_w = flen as u128;
    if neg {
        k1 >= flen_w && ev == k1 - flen_w
    } else {
        flen_w >= k1 && ev == flen_w - k1
    }
}

} // verus!
