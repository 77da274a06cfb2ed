use vstd::arithmetic::div_mod::*;
use vstd::prelude::*;

verus! {

/// The linear share of `total` that `t` out of `span` time units stand for,
/// rounded toward zero.
pub open spec fn share(total: int, t: int, span: int) -> int {
    total * t / span
}

/// Floor division of a natural number brackets it between two multiples of
/// the divisor.
pub proof fn lemma_div_bounds(x: int, d: int)
    requires
        0 <= x,
        0 < d,
    ensures
        0 <= x / d,
        d * (x / d) <= x,
        x < d * (x / d) + d,
{
    lemma_fundamental_div_mod(x, d);
    lemma_mod_pos_bound(x, d);
    lemma_div_pos_is_pos(x, d);
}

/// Dividing a sum loses at most one unit against dividing its terms.
pub proof fn lemma_div_of_sum(x: int, y: int, d: int)
    requires
        0 <= x,
        0 <= y,
        0 < d,
    ensures
        x / d + y / d <= (x + y) / d,
        (x + y) / d <= x / d + y / d + 1,
{
    lemma_div_bounds(x, d);
    lemma_div_bounds(y, d);
    lemma_div_bounds(x + y, d);
    let a = x / d;
    let b = y / d;
    let c = (x + y) / d;
    assert(a + b <= c && c <= a + b + 1) by (nonlinear_arith)
        requires
            0 < d,
            d * a <= x < d * a + d,
            d * b <= y < d * b + d,
            d * c <= x + y < d * c + d,
    ;
}

/// Floor division is monotone in the dividend.
pub proof fn lemma_div_monotone(x: int, y: int, d: int)
    requires
        x <= y,
        0 < d,
    ensures
        x / d <= y / d,
{
    lemma_div_is_ordered(x, y, d);
}

/// A quotient is the one multiple that brackets the dividend.
pub proof fn lemma_div_unique(x: int, d: int, q: int)
    requires
        0 <= x,
        0 < d,
        d * q <= x < d * q + d,
    ensures
        x / d == q,
{
    lemma_div_bounds(x, d);
    let c = x / d;
    assert(c == q) by (nonlinear_arith)
        requires
            0 < d,
            d * q <= x < d * q + d,
            d * c <= x < d * c + d,
    ;
}

/// `total * t / span` splits along `total == q * span + r`.
pub proof fn lemma_share_split(total: int, t: int, span: int)
    requires
        0 <= total,
        0 <= t <= span,
        0 < span,
    ensures
        share(total, t, span) == (total / span) * t + (total % span) * t / span,
        0 <= (total / span) * t <= total,
        0 <= (total % span) * t <= span * t,
        share(total, t, span) <= total,
{
    let q = total / span;
    let r = total % span;
    lemma_fundamental_div_mod(total, span);
    lemma_mod_pos_bound(total, span);
    lemma_div_pos_is_pos(total, span);
    assert(total * t == span * (q * t) + r * t) by (nonlinear_arith)
        requires
            total == span * q + r,
    ;
    assert(0 <= r * t <= span * t && 0 <= q * t <= total) by (nonlinear_arith)
        requires
            0 <= r < span,
            0 <= t <= span,
            0 <= q,
            total == span * q + r,
    ;
    lemma_div_bounds(r * t, span);
    let f = r * t / span;
    assert(span * (q * t + f) <= total * t < span * (q * t + f) + span) by (nonlinear_arith)
        requires
            total * t == span * (q * t) + r * t,
            span * f <= r * t < span * f + span,
    ;
    lemma_div_unique(total * t, span, q * t + f);
    assert(total * t <= total * span) by (nonlinear_arith)
        requires
            0 <= total,
            t <= span,
    ;
    lemma_div_monotone(total * t, total * span, span);
    assert(total * span / span == total) by {
        lemma_div_multiples_vanish(total, span);
    }
}

/// `total * t / span` for `t <= span`, computed without overflow.
pub fn share_of(total: u128, t: u64, span: u64) -> (r: u128)
    requires
        0 < span,
        t <= span,
    ensures
        r == share(total as int, t as int, span as int),
{
    proof {
        lemma_share_split(total as int, t as int, span as int);
        assert((t as int) * (t as int) <= (span as int) * (span as int)) by (nonlinear_arith)
            requires
                0 <= t <= span,
        ;
        assert((span as int) * (t as int) <= 0xffff_ffff_ffff_ffff * 0xffff_ffff_ffff_ffff)
            by (nonlinear_arith)
            requires
                0 <= t <= span <= 0xffff_ffff_ffff_ffff,
        ;
    }
    let q = total / (span as u128);
    let rem = total % (span as u128);
    let whole = q * (t as u128);
    let part = rem * (t as u128) / (span as u128);
    whole + part
}

} // verus!
