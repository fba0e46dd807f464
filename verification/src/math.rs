//! Exact integer arithmetic on balances.

use vstd::prelude::*;
use vstd::arithmetic::div_mod::lemma_fundamental_div_mod_converse;

verus! {

/// If `q` whole multiples of `c` fit into `a * b` and `b` is at most `c`,
/// then `q` is at most `a`.
proof fn lemma_quotient_at_most_factor(a: int, b: int, c: int, q: int, r: int)
    requires
        0 <= a,
        0 <= b <= c,
        0 < c,
        0 <= r,
        a * b == q * c + r,
    ensures
        q <= a,
{
    assert(a * b <= a * c) by (nonlinear_arith)
        requires
            0 <= a,
            b <= c,
    ;
    assert(q <= a) by (nonlinear_arith)
        requires
            q * c <= a * c,
            0 < c,
    ;
}

/// Quotient and remainder of `a * b` by `c`, computed without ever forming
/// the product: the multiplier is taken bit by bit and the remainder is kept
/// below `c` throughout.
fn mul_div_rem(a: u128, b: u128, c: u128) -> (qr: (u128, u128))
    requires
        0 < c,
        b <= c,
    ensures
        a * b == qr.0 * c + qr.1,
        qr.1 < c,
        qr.0 <= a,
    decreases b,
{
    if b == 0 {
        assert(a * b == 0) by (nonlinear_arith)
            requires
                b == 0,
        ;
        assert(0 * c == 0) by (nonlinear_arith);
        return (0, 0);
    }
    let half: u128 = b / 2;
    let (qh, rh): (u128, u128) = mul_div_rem(a, half, c);
    let ghost doubled: int = 2 * half;
    // Twice the half: a * doubled == q * c + r.
    let mut q: u128;
    let mut r: u128;
    if rh >= c - rh {
        proof {
            assert(a * doubled == (2 * qh + 1) * c + (rh - (c - rh))) by (nonlinear_arith)
                requires
                    a * half == qh * c + rh,
                    doubled == 2 * half,
            ;
            lemma_quotient_at_most_factor(
                a as int,
                doubled,
                c as int,
                2 * qh + 1,
                rh - (c - rh),
            );
        }
        q = 2 * qh + 1;
        r = rh - (c - rh);
    } else {
        proof {
            assert(a * doubled == (2 * qh) * c + (rh + rh)) by (nonlinear_arith)
                requires
                    a * half == qh * c + rh,
                    doubled == 2 * half,
            ;
            lemma_quotient_at_most_factor(a as int, doubled, c as int, 2 * qh, rh + rh);
        }
        q = 2 * qh;
        r = rh + rh;
    }
    if b % 2 == 1 {
        let qa: u128 = a / c;
        let ra: u128 = a % c;
        assert(a == qa * c + ra) by (nonlinear_arith)
            requires
                qa == a / c,
                ra == a % c,
                0 < c,
        ;
        if r >= c - ra {
            proof {
                assert(a * b == (q + qa + 1) * c + (r - (c - ra))) by (nonlinear_arith)
                    requires
                        a * doubled == q * c + r,
                        a == qa * c + ra,
                        b == doubled + 1,
                ;
                lemma_quotient_at_most_factor(
                    a as int,
                    b as int,
                    c as int,
                    q + qa + 1,
                    r - (c - ra),
                );
            }
            q = q + qa + 1;
            r = r - (c - ra);
        } else {
            proof {
                assert(a * b == (q + qa) * c + (r + ra)) by (nonlinear_arith)
                    requires
                        a * doubled == q * c + r,
                        a == qa * c + ra,
                        b == doubled + 1,
                ;
                lemma_quotient_at_most_factor(a as int, b as int, c as int, q + qa, r + ra);
            }
            q = q + qa;
            r = r + ra;
        }
    }
    (q, r)
}

/// `a * b / c`, rounded down, for a fraction `b / c` of at most one.
///
/// The product `a * b` may be wider than a balance; the result never is,
/// and it is exact.
pub fn mul_div(a: u128, b: u128, c: u128) -> (q: u128)
    requires
        0 < c,
        b <= c,
    ensures
        q == (a * b) / (c as int),
        q <= a,
{
    let (q, r): (u128, u128) = mul_div_rem(a, b, c);
    proof {
        lemma_fundamental_div_mod_converse(a * b, c as int, q as int, r as int);
    }
    q
}

} // verus!
