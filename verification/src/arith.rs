//! Rounded and saturating arithmetic on sizes.
use vstd::arithmetic::div_mod::lemma_fundamental_div_mod;
use vstd::prelude::*;

verus! {

/// The product of two sizes, or the greatest size where it does not fit.
pub open spec fn saturated(a: usize, b: usize) -> usize {
    if a * b <= usize::MAX {
        (a * b) as usize
    } else {
        usize::MAX
    }
}

pub fn saturating_product(a: usize, b: usize) -> (product: usize)
    ensures
        product == saturated(a, b),
{
    match a.checked_mul(b) {
        Some(product) => product,
        None => usize::MAX,
    }
}

/// The quotient, rounded up.
pub open spec fn ceil_div(value: nat, unit: nat) -> nat {
    if value % unit == 0 {
        value / unit
    } else {
        value / unit + 1
    }
}

/// Divides and rounds up.
pub fn divide_up(value: usize, unit: usize) -> (quotient: usize)
    requires
        unit > 0,
    ensures
        quotient == ceil_div(value as nat, unit as nat),
        quotient <= value,
{
    assert(value / unit <= value) by (nonlinear_arith)
        requires
            unit > 0,
    ;
    if value % unit == 0 {
        value / unit
    } else {
        proof {
            lemma_fundamental_div_mod(value as int, unit as int);
            assert(value / unit < value) by (nonlinear_arith)
                requires
                    value == unit * (value / unit) + value % unit,
                    value % unit > 0,
                    unit > 0,
            ;
        }
        value / unit + 1
    }
}

/// The quotient rounded up covers the value, and one less does not.
pub proof fn law_ceil_div(value: nat, unit: nat)
    requires
        unit > 0,
    ensures
        value <= ceil_div(value, unit) * unit < value + unit,
{
    lemma_fundamental_div_mod(value as int, unit as int);
    let q = value / unit;
    assert((q + 1) * unit == q * unit + unit) by (nonlinear_arith);
    assert(unit * q == q * unit) by (nonlinear_arith);
}

/// The least multiple of `alignment` that is not below `value`.
pub open spec fn aligned(value: nat, alignment: nat) -> nat {
    ceil_div(value, alignment) * alignment
}

/// Rounds a size up to a multiple of `alignment`.
pub fn align_up(value: usize, alignment: usize) -> (multiple: usize)
    requires
        alignment > 0,
        aligned(value as nat, alignment as nat) <= usize::MAX,
    ensures
        multiple == aligned(value as nat, alignment as nat),
{
    divide_up(value, alignment) * alignment
}

/// Rounds a size up to a multiple of `alignment`, where that fits a `usize`.
pub fn checked_align_up(value: usize, alignment: usize) -> (multiple: Option<usize>)
    requires
        alignment > 0,
    ensures
        multiple == if aligned(value as nat, alignment as nat) <= usize::MAX {
            Some(aligned(value as nat, alignment as nat) as usize)
        } else {
            None
        },
{
    divide_up(value, alignment).checked_mul(alignment)
}

/// An aligned size is a multiple of the alignment, not below the size, and no
/// smaller multiple is.
pub proof fn law_align_up(value: nat, alignment: nat)
    requires
        alignment > 0,
    ensures
        aligned(value, alignment) % alignment == 0,
        value <= aligned(value, alignment) < value + alignment,
        forall|k: nat| value <= #[trigger] (k * alignment) ==> aligned(value, alignment) <= k * alignment,
{
    law_ceil_div(value, alignment);
    let q = ceil_div(value, alignment);
    vstd::arithmetic::div_mod::lemma_mod_multiples_basic(q as int, alignment as int);
    assert forall|k: nat| value <= #[trigger] (k * alignment) implies aligned(value, alignment) <= k
        * alignment by {
        if k < q {
            assert(k * alignment + alignment <= q * alignment) by (nonlinear_arith)
                requires
                    k < q,
            ;
        } else {
            assert(q * alignment <= k * alignment) by (nonlinear_arith)
                requires
                    q <= k,
            ;
        }
    }
}

/// Aligning twice is aligning once.
pub proof fn law_align_up_is_idempotent(value: nat, alignment: nat)
    requires
        alignment > 0,
    ensures
        aligned(aligned(value, alignment), alignment) == aligned(value, alignment),
{
    law_align_up(value, alignment);
    let a = aligned(value, alignment);
    lemma_fundamental_div_mod(a as int, alignment as int);
    assert(alignment * (a / alignment) == (a / alignment) * alignment) by (nonlinear_arith);
}

/// A product saturates: it is the true one as far as that fits, and never above.
pub proof fn law_products_saturate(a: usize, b: usize)
    ensures
        saturated(a, b) <= a * b,
        a * b <= usize::MAX ==> saturated(a, b) == a * b,
        a * b > usize::MAX ==> saturated(a, b) == usize::MAX,
{
    assert(a * b >= 0) by (nonlinear_arith);
}

} // verus!
