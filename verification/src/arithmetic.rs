//! Integer arithmetic shared by the planners.
use vstd::prelude::*;

verus! {

/// Divides with the quotient rounded up.
pub fn div_ceil(dividend: usize, divisor: usize) -> (quotient: usize)
    requires
        divisor > 0,
    ensures
        quotient == (dividend + divisor - 1) / divisor as int,
{
    let whole: usize = dividend / divisor;
    let rest: usize = dividend % divisor;
    proof {
        vstd::arithmetic::div_mod::lemma_fundamental_div_mod(dividend as int, divisor as int);
        if rest > 0 {
            assert((whole + 1) * divisor == divisor * whole + divisor) by (nonlinear_arith);
            vstd::arithmetic::div_mod::lemma_fundamental_div_mod_converse(
                dividend + divisor - 1,
                divisor as int,
                whole + 1,
                rest - 1,
            );
            assert(whole + 1 <= dividend) by (nonlinear_arith)
                requires
                    dividend == divisor * whole + rest,
                    divisor >= 1,
                    rest >= 1,
            ;
        } else {
            assert(whole * divisor == divisor * whole) by (nonlinear_arith);
            vstd::arithmetic::div_mod::lemma_fundamental_div_mod_converse(
                dividend + divisor - 1,
                divisor as int,
                whole as int,
                divisor - 1,
            );
        }
    }
    if rest > 0 {
        whole + 1
    } else {
        whole
    }
}

/// Divides with the quotient rounded up.
pub fn div_ceil_u32(dividend: u32, divisor: u32) -> (quotient: u32)
    requires
        divisor > 0,
    ensures
        quotient == (dividend + divisor - 1) / divisor as int,
{
    let quotient: usize = div_ceil(dividend as usize, divisor as usize);
    proof {
        lemma_div_ceil_is_at_most(dividend as int, divisor as int);
    }
    quotient as u32
}

/// A quotient that is rounded up is at most the dividend.
pub proof fn lemma_div_ceil_is_at_most(dividend: int, divisor: int)
    requires
        dividend >= 0,
        divisor > 0,
    ensures
        0 <= (dividend + divisor - 1) / divisor <= dividend,
{
    assert((dividend + divisor - 1) / divisor <= dividend) by (nonlinear_arith)
        requires
            dividend >= 0,
            divisor > 0,
    ;
    assert(0 <= (dividend + divisor - 1) / divisor) by (nonlinear_arith)
        requires
            dividend >= 0,
            divisor > 0,
    ;
}

/// The product, or the greatest number where it does not fit.
pub open spec fn saturating_product(left: u32, right: u32) -> u32 {
    if left * right > u32::MAX {
        u32::MAX
    } else {
        (left * right) as u32
    }
}

/// The product, or the greatest number where it does not fit.
pub fn saturating_mul(left: u32, right: u32) -> (product: u32)
    ensures
        product == saturating_product(left, right),
{
    match left.checked_mul(right) {
        Some(product) => product,
        None => u32::MAX,
    }
}

pub open spec fn spec_max_u32(left: u32, right: u32) -> u32 {
    if left < right {
        right
    } else {
        left
    }
}

/// The greater of two numbers.
#[verifier::when_used_as_spec(spec_max_u32)]
pub fn max_u32(left: u32, right: u32) -> (greater: u32)
    ensures
        greater == max_u32(left, right),
{
    if left < right {
        right
    } else {
        left
    }
}

pub open spec fn spec_min_u32(left: u32, right: u32) -> u32 {
    if left < right {
        left
    } else {
        right
    }
}

/// The lesser of two numbers.
#[verifier::when_used_as_spec(spec_min_u32)]
pub fn min_u32(left: u32, right: u32) -> (lesser: u32)
    ensures
        lesser == min_u32(left, right),
{
    if left < right {
        left
    } else {
        right
    }
}

/// `value` is `factor` times an integer; only zero is a multiple of zero.
pub open spec fn is_multiple(value: u32, factor: u32) -> bool {
    if factor == 0 {
        value == 0
    } else {
        value % factor == 0
    }
}

/// Whether `value` is `factor` times an integer.
pub fn is_multiple_of(value: u32, factor: u32) -> (multiple: bool)
    ensures
        multiple == is_multiple(value, factor),
{
    if factor == 0 {
        value == 0
    } else {
        value % factor == 0
    }
}

/// Parts of the divisor's size cover the dividend, and one part less does not.
pub proof fn law_quotient_rounds_up(dividend: usize, divisor: usize, quotient: usize)
    requires
        divisor > 0,
        call_ensures(div_ceil, (dividend, divisor), quotient),
    ensures
        quotient * divisor >= dividend,
        quotient > 0 ==> (quotient - 1) * divisor < dividend,
{
    lemma_rounds_up(dividend as int, divisor as int);
}

/// Parts of the divisor's size cover the dividend, and one part less does not.
pub proof fn law_quotient_of_words_rounds_up(dividend: u32, divisor: u32, quotient: u32)
    requires
        divisor > 0,
        call_ensures(div_ceil_u32, (dividend, divisor), quotient),
    ensures
        quotient * divisor >= dividend,
        quotient > 0 ==> (quotient - 1) * divisor < dividend,
{
    lemma_rounds_up(dividend as int, divisor as int);
}

proof fn lemma_rounds_up(dividend: int, divisor: int)
    requires
        dividend >= 0,
        divisor > 0,
    ensures
        ({
            let quotient = (dividend + divisor - 1) / divisor;
            quotient * divisor >= dividend && (quotient - 1) * divisor < dividend
        }),
{
    let quotient = (dividend + divisor - 1) / divisor;
    assert(quotient * divisor >= dividend && (quotient - 1) * divisor < dividend) by (nonlinear_arith)
        requires
            divisor > 0,
            quotient == (dividend + divisor - 1) / divisor,
    ;
}

/// A product is exact where it fits, and no number is greater where it does not.
pub proof fn law_products_are_exact_or_greatest(left: u32, right: u32, product: u32)
    requires
        call_ensures(saturating_mul, (left, right), product),
    ensures
        product <= left * right,
        product < left * right ==> product == u32::MAX,
{
}

/// The greater of two numbers is one of them and not less than either, the lesser one of them and not
/// greater.
pub proof fn law_bounds_are_reached(left: u32, right: u32, greater: u32, lesser: u32)
    requires
        call_ensures(max_u32, (left, right), greater),
        call_ensures(min_u32, (left, right), lesser),
    ensures
        lesser <= left <= greater,
        lesser <= right <= greater,
        lesser + greater == left + right,
{
}

/// A number is a multiple exactly where some number of times the factor makes it.
pub proof fn law_multiples_are_products(value: u32, factor: u32, multiple: bool, times: int)
    requires
        call_ensures(is_multiple_of, (value, factor), multiple),
    ensures
        value == times * factor ==> multiple,
        multiple ==> value == (if factor == 0 {
            0
        } else {
            (value / factor) * factor
        }),
{
    if factor > 0 {
        vstd::arithmetic::div_mod::lemma_fundamental_div_mod(value as int, factor as int);
        assert((value / factor) * factor == factor * (value / factor)) by (nonlinear_arith);
        if value == times * factor {
            vstd::arithmetic::div_mod::lemma_mod_multiples_basic(times, factor as int);
        }
    } else {
        assert(times * factor == 0) by (nonlinear_arith)
            requires
                factor == 0,
        ;
    }
}

} // verus!
