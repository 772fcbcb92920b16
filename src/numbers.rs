use vstd::prelude::*;

verus! {

/// Ten to the power `n`.
pub open spec fn pow10(n: nat) -> nat
    decreases n,
{
    if n == 0 {
        1
    } else {
        10 * pow10((n - 1) as nat)
    }
}

/// An ASCII decimal digit.
pub open spec fn is_digit(c: char) -> bool {
    '0' <= c && c <= '9'
}

/// The number that a string of decimal digits writes.
pub open spec fn digits_value(d: Seq<char>) -> nat
    decreases d.len(),
{
    if d.len() == 0 {
        0
    } else {
        digits_value(d.drop_last()) * 10 + (d.last() as nat - '0' as nat) as nat
    }
}

/// One or more characters, each a decimal digit.
pub open spec fn is_number(d: Seq<char>) -> bool {
    1 <= d.len() && forall|i: int| 0 <= i < d.len() ==> is_digit(#[trigger] d[i])
}

/// Decimal digits that write a number a `u64` holds.
pub open spec fn fits_u64(d: Seq<char>) -> bool {
    is_number(d) && digits_value(d) <= u64::MAX
}

/// A numeral never writes less than any of its prefixes.
pub proof fn lemma_digits_prefix(d: Seq<char>, i: int)
    requires
        0 <= i <= d.len(),
        forall|k: int| 0 <= k < d.len() ==> is_digit(#[trigger] d[k]),
    ensures
        digits_value(d.subrange(0, i)) <= digits_value(d),
    decreases d.len() - i,
{
    if i < d.len() {
        let p = d.drop_last();
        assert forall|k: int| 0 <= k < p.len() implies is_digit(#[trigger] p[k]) by {
            assert(p[k] == d[k]);
        }
        if i < d.len() {
            lemma_digits_prefix(p, i);
            assert(p.subrange(0, i) =~= d.subrange(0, i));
        }
    } else {
        assert(d.subrange(0, i) =~= d);
    }
}

pub proof fn lemma_pow10_mono(n: nat, m: nat)
    requires
        n <= m,
    ensures
        pow10(n) <= pow10(m),
    decreases m - n,
{
    if n < m {
        lemma_pow10_mono(n, (m - 1) as nat);
    }
}

pub proof fn lemma_digits_below(d: Seq<char>)
    requires
        forall|i: int| 0 <= i < d.len() ==> is_digit(#[trigger] d[i]),
    ensures
        digits_value(d) < pow10(d.len()),
    decreases d.len(),
{
    if d.len() > 0 {
        let p = d.drop_last();
        assert forall|i: int| 0 <= i < p.len() implies is_digit(#[trigger] p[i]) by {
            assert(p[i] == d[i]);
        }
        lemma_digits_below(p);
        assert(is_digit(d[d.len() - 1]));
        let v = digits_value(p);
        let q = pow10(p.len());
        assert(v * 10 + 9 < q * 10) by (nonlinear_arith)
            requires
                v < q,
        ;
    }
}

/// The number written by `d`, when it is decimal digits whose value a `u64` holds.
pub fn parse_number(d: &Vec<char>) -> (r: Option<u64>)
    ensures
        match r {
            Some(v) => fits_u64(d@) && v as nat == digits_value(d@),
            None => !fits_u64(d@),
        },
{
    if d.len() == 0 {
        return None;
    }
    let mut v: u64 = 0;
    let mut i: usize = 0;
    while i < d.len()
        invariant
            1 <= d@.len(),
            i <= d@.len(),
            forall|m: int| 0 <= m < i ==> is_digit(#[trigger] d@[m]),
            v as nat == digits_value(d@.subrange(0, i as int)),
        decreases d@.len() - i,
    {
        let c = d[i];
        if !('0' <= c && c <= '9') {
            assert(!is_digit(d@[i as int]));
            return None;
        }
        let dig = (c as u32 - '0' as u32) as u64;
        proof {
            assert(d@.subrange(0, i + 1).drop_last() =~= d@.subrange(0, i as int));
        }
        if v > 1844674407370955161 || (v == 1844674407370955161 && dig > 5) {
            proof {
                assert(digits_value(d@.subrange(0, i + 1)) > u64::MAX);
                if is_number(d@) {
                    lemma_digits_prefix(d@, i + 1);
                }
            }
            return None;
        }
        v = v * 10 + dig;
        i = i + 1;
    }
    assert(d@.subrange(0, i as int) =~= d@);
    Some(v)
}

} // verus!
