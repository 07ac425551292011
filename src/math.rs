//! Powers of ten and Rust's rounding-toward-zero division, stated over `int`.

use vstd::prelude::*;

verus! {

/// Ten to the power `n`.
pub open spec fn pow10(n: nat) -> int
    decreases n,
{
    if n == 0 {
        1
    } else {
        10 * pow10((n - 1) as nat)
    }
}

/// Integer division rounded toward zero, as Rust's `/` computes it on signed integers.
pub open spec fn trunc_div(x: int, d: int) -> int {
    if x == 0 {
        0
    } else if x > 0 && d > 0 {
        x / d
    } else if x < 0 && d < 0 {
        (x * -1) / (d * -1)
    } else if x < 0 {
        ((x * -1) / d) * -1
    } else {
        (x / (d * -1)) * -1
    }
}

/// `i64::checked_div` is `trunc_div` wherever the quotient fits.
pub proof fn lemma_checked_div_i64(x: i64, d: i64)
    ensures
        d == 0 ==> x.checked_div(d) is None,
        d != 0 && i64::MIN <= trunc_div(x as int, d as int) <= i64::MAX ==> x.checked_div(d)
            == Some(trunc_div(x as int, d as int) as i64),
        d != 0 && !(i64::MIN <= trunc_div(x as int, d as int) <= i64::MAX) ==> x.checked_div(d) is None,
{
}

/// `i128::checked_div` is `trunc_div` wherever the quotient fits.
pub proof fn lemma_checked_div_i128(x: i128, d: i128)
    ensures
        d == 0 ==> x.checked_div(d) is None,
        d != 0 && i128::MIN <= trunc_div(x as int, d as int) <= i128::MAX ==> x.checked_div(d)
            == Some(trunc_div(x as int, d as int) as i128),
        d != 0 && !(i128::MIN <= trunc_div(x as int, d as int) <= i128::MAX) ==> x.checked_div(d)
            is None,
{
}

/// Dividing by a positive number toward zero never moves away from zero.
pub proof fn lemma_trunc_div_shrinks(x: int, d: int)
    requires
        d > 0,
    ensures
        x >= 0 ==> 0 <= trunc_div(x, d) <= x,
        x < 0 ==> x <= trunc_div(x, d) <= 0,
{
    if x > 0 {
        assert(0 <= x / d <= x) by (nonlinear_arith)
            requires
                x > 0,
                d > 0,
        ;
    } else if x < 0 {
        let y = x * -1;
        assert(0 <= y / d <= y) by (nonlinear_arith)
            requires
                y > 0,
                d > 0,
        ;
    }
}

pub proof fn lemma_pow10_positive(n: nat)
    ensures
        pow10(n) >= 1,
    decreases n,
{
    if n > 0 {
        lemma_pow10_positive((n - 1) as nat);
    }
}

pub proof fn lemma_pow10_monotone(a: nat, b: nat)
    requires
        a <= b,
    ensures
        1 <= pow10(a) <= pow10(b),
    decreases b,
{
    lemma_pow10_positive(a);
    lemma_pow10_positive(b);
    if a < b {
        lemma_pow10_monotone(a, (b - 1) as nat);
    }
}

pub proof fn lemma_pow10_values()
    ensures
        pow10(3) == 1_000,
        pow10(6) == 1_000_000,
        pow10(9) == 1_000_000_000,
        pow10(18) == 1_000_000_000_000_000_000,
        pow10(19) == 10_000_000_000_000_000_000,
        pow10(38) == 100_000_000_000_000_000_000_000_000_000_000_000_000,
        pow10(39) == 1_000_000_000_000_000_000_000_000_000_000_000_000_000,
{
    reveal_with_fuel(pow10, 40);
}

/// Ten to the power `n` as a `u128`, or `None` where it does not fit (`n > 38`).
pub fn pow10_u128(n: u32) -> (r: Option<u128>)
    ensures
        n <= 38 <==> r is Some,
        r matches Some(v) ==> v == pow10(n as nat),
        n > 38 ==> pow10(n as nat) > u128::MAX,
{
    proof {
        lemma_pow10_values();
    }
    if n > 38 {
        proof {
            lemma_pow10_monotone(39, n as nat);
        }
        return None;
    }
    let mut v: u128 = 1;
    let mut i: u32 = 0;
    while i < n
        invariant
            i <= n <= 38,
            v == pow10(i as nat),
            pow10(38) == 100_000_000_000_000_000_000_000_000_000_000_000_000,
        decreases n - i,
    {
        proof {
            lemma_pow10_monotone((i + 1) as nat, 38);
        }
        v = v * 10;
        i = i + 1;
    }
    Some(v)
}

/// `v × 10^shift` when `shift` is positive, `v / 10^-shift` rounded toward zero
/// when it is negative; `None` where the power of ten exceeds `10^38` or the
/// product leaves `i128`.
pub open spec fn scale_by_pow10(v: int, shift: int) -> Option<int> {
    if shift > 38 || shift < -38 {
        None
    } else if shift > 0 {
        if i128::MIN <= v * pow10(shift as nat) <= i128::MAX {
            Some(v * pow10(shift as nat))
        } else {
            None
        }
    } else if shift < 0 {
        Some(trunc_div(v, pow10((-shift) as nat)))
    } else {
        Some(v)
    }
}

/// Scales `v` by a power of ten with checked `i128` arithmetic (see `scale_by_pow10`).
pub fn scale_i128(v: i128, shift: i64) -> (r: Option<i128>)
    ensures
        match r {
            Some(x) => scale_by_pow10(v as int, shift as int) == Some(x as int),
            None => scale_by_pow10(v as int, shift as int) is None,
        },
{
    proof {
        lemma_pow10_values();
    }
    if shift > 38 || shift < -38 {
        return None;
    }
    if shift == 0 {
        return Some(v);
    }
    let n: u32 = if shift > 0 { shift as u32 } else { (-shift) as u32 };
    let p = match pow10_u128(n) {
        Some(p) => p,
        None => return None,
    };
    proof {
        lemma_pow10_monotone(n as nat, 38);
    }
    let p = p as i128;
    if shift > 0 {
        v.checked_mul(p)
    } else {
        proof {
            lemma_trunc_div_shrinks(v as int, p as int);
            lemma_checked_div_i128(v, p);
        }
        v.checked_div(p)
    }
}

/// Ten to the power `n` as an `i64`, or `None` where it does not fit (`n > 18`).
pub fn pow10_i64(n: u32) -> (r: Option<i64>)
    ensures
        n <= 18 <==> r is Some,
        r matches Some(v) ==> v == pow10(n as nat),
        n > 18 ==> pow10(n as nat) > i64::MAX,
{
    proof {
        lemma_pow10_values();
        if n <= 18 {
            lemma_pow10_monotone(n as nat, 18);
        } else {
            lemma_pow10_monotone(19, n as nat);
        }
    }
    if n > 18 {
        return None;
    }
    match pow10_u128(n) {
        Some(v) => Some(v as i64),
        None => None,
    }
}

/// Ten to the power `n` as a `u64`, or `None` where it does not fit (`n > 19`).
pub fn pow10_u64(n: u32) -> (r: Option<u64>)
    ensures
        n <= 19 <==> r is Some,
        r matches Some(v) ==> v == pow10(n as nat),
        n > 19 ==> pow10(n as nat) > u64::MAX,
{
    proof {
        lemma_pow10_values();
        if n <= 19 {
            lemma_pow10_monotone(n as nat, 19);

        } else {
            lemma_pow10_monotone(20, n as nat);
        }
    }
    if n > 19 {
        return None;
    }
    match pow10_u128(n) {
        Some(v) => Some(v as u64),
        None => None,
    }
}

} // verus!
