//! Multiplication followed by division on 128-bit integers, without an
//! overflow of the product in between.

use vstd::prelude::*;
use vstd::arithmetic::div_mod::lemma_fundamental_div_mod_converse;

verus! {

/// `a * b / d`, rounded down, where `d` is not zero and the quotient fits in
/// 128 bits. That a factor of zero gives zero is said apart, so that it is seen
/// without a proof about products.
pub open spec fn mul_div_spec(a: u128, b: u128, d: u128) -> Option<u128> {
    if d == 0 {
        None
    } else if a == 0 || b == 0 {
        Some(0)
    } else if a * b / (d as int) > u128::MAX {
        None
    } else {
        Some((a * b / (d as int)) as u128)
    }
}

/// What `mul_div_spec` gives is the quotient of the product, where the divisor
/// is not zero: the quotient itself where it fits in 128 bits, and nothing
/// where it does not.
pub proof fn lemma_mul_div_spec(a: u128, b: u128, d: u128)
    requires
        d != 0,
    ensures
        a * b / (d as int) >= 0,
        match mul_div_spec(a, b, d) {
            Some(q) => q == a * b / (d as int),
            None => a * b / (d as int) > u128::MAX,
        },
{
    assert(a * b >= 0) by (nonlinear_arith)
        requires
            a >= 0,
            b >= 0,
    ;
    if a == 0 || b == 0 {
        assert(a * b == 0) by (nonlinear_arith)
            requires
                a == 0 || b == 0,
        ;
    }
    assert(a * b / (d as int) >= 0) by (nonlinear_arith)
        requires
            a * b >= 0,
            d > 0,
    ;
}

/// A quotient is at least `y` where the dividend is at least `y * d`.
pub proof fn lemma_quotient_at_least(x: int, y: int, d: int)
    by (nonlinear_arith)
    requires
        d > 0,
        x >= y * d,
    ensures
        x / d >= y,
{
}

/// Computes `a * b / d`, rounded down, without losing the high bits of the
/// product. Gives `None` where `d` is zero and where the quotient does not fit
/// in 128 bits.
pub fn mul_div(a: u128, b: u128, d: u128) -> (r: Option<u128>)
    ensures
        r == mul_div_spec(a, b, d),
{
    if d == 0 {
        return None;
    }
    proof {
        lemma_mul_div_spec(a, b, d);
    }
    match a.checked_mul(b) {
        Some(product) => {
            return Some(product / d);
        },
        None => {},
    }
    // The quotient and remainder of `a * low`, where `low` is made of the bits
    // of `b` that are done; and those of `a * w`, where `w` is the weight of
    // the next bit.
    let mut q: u128 = 0;
    let mut r: u128 = 0;
    let mut qa: u128 = a / d;
    let mut ra: u128 = a % d;
    let mut rest: u128 = b;
    let ghost mut w: int = 1;
    let ghost mut low: int = 0;
    proof {
        assert(a * 1 == (a / d) * d + a % d) by (nonlinear_arith)
            requires
                d > 0,
        ;
    }
    while rest > 0
        invariant
            d > 0,
            w >= 1,
            low >= 0,
            b == rest * w + low,
            a * low == q * d + r,
            r < d,
            a * w == qa * d + ra,
            ra < d,
        decreases rest,
    {
        let ghost rest0 = rest;
        if rest % 2 == 1 {
            proof {
                assert(a * (low + w) == a * low + a * w) by (nonlinear_arith);
                assert((q + qa) * d == q * d + qa * d) by (nonlinear_arith);
                assert((q + qa + 1) * d == q * d + qa * d + d) by (nonlinear_arith);
                assert(rest * w >= w) by (nonlinear_arith)
                    requires
                        rest >= 1,
                        w >= 1,
                ;
                assert(a * b >= a * (low + w)) by (nonlinear_arith)
                    requires
                        b >= low + w,
                        a >= 0,
                ;
            }
            let carry: u128 = if r >= d - ra {
                r = r - (d - ra);
                1
            } else {
                r = r + ra;
                0
            };
            let sum = match q.checked_add(qa) {
                Some(sum) => sum.checked_add(carry),
                None => None,
            };
            q = match sum {
                Some(sum) => sum,
                None => {
                    proof {
                        lemma_quotient_at_least(a * b, q + qa + carry, d as int);
                    }
                    return None;
                },
            };
            proof {
                low = low + w;
            }
        }
        rest = rest / 2;
        if rest > 0 {
            proof {
                assert(a * (2 * w) == 2 * (a * w)) by (nonlinear_arith);
                assert((qa + qa) * d == 2 * (qa * d)) by (nonlinear_arith);
                assert((qa + qa + 1) * d == 2 * (qa * d) + d) by (nonlinear_arith);
                assert(rest * (2 * w) >= 2 * w) by (nonlinear_arith)
                    requires
                        rest >= 1,
                        w >= 1,
                ;
                assert(rest0 * w == rest * (2 * w) + (rest0 % 2) * w) by (nonlinear_arith)
                    requires
                        rest0 == 2 * rest + rest0 % 2,
                ;
                assert(a * b >= a * (2 * w)) by (nonlinear_arith)
                    requires
                        b >= 2 * w,
                        a >= 0,
                ;
            }
            let carry: u128 = if ra >= d - ra {
                ra = ra - (d - ra);
                1
            } else {
                ra = ra + ra;
                0
            };
            let sum = match qa.checked_add(qa) {
                Some(sum) => sum.checked_add(carry),
                None => None,
            };
            qa = match sum {
                Some(sum) => sum,
                None => {
                    proof {
                        lemma_quotient_at_least(a * b, qa + qa + carry, d as int);
                    }
                    return None;
                },
            };
            proof {
                w = 2 * w;
            }
        } else {
            proof {
                assert(rest0 == 1 || rest0 == 0);
                assert(rest0 * w == (rest0 % 2) * w) by (nonlinear_arith)
                    requires
                        rest0 == rest0 % 2,
                ;
            }
        }
    }
    proof {
        assert(rest * w == 0) by (nonlinear_arith)
            requires
                rest == 0,
        ;
        lemma_fundamental_div_mod_converse(a * b, d as int, q as int, r as int);
    }
    Some(q)
}

} // verus!
