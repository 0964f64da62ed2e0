use vstd::prelude::*;
use std::cmp::Ordering;
use crate::rolling_window::{ChannelBlock, runner_of};

verus! {

/// Whether `r` is the ordering of `a` against `b`.
pub open spec fn orders(r: Ordering, a: int, b: int) -> bool {
    &&& (r == Ordering::Less) <==> a < b
    &&& (r == Ordering::Equal) <==> a == b
    &&& (r == Ordering::Greater) <==> a > b
}

/// `a` compared against `b`.
pub fn order_u128(a: u128, b: u128) -> (r: Ordering)
    ensures
        (r == Ordering::Less) <==> a < b,
        (r == Ordering::Equal) <==> a == b,
        (r == Ordering::Greater) <==> a > b,
{
    if a < b {
        Ordering::Less
    } else if a == b {
        Ordering::Equal
    } else {
        Ordering::Greater
    }
}

/// Whether the ordering is `Less`.
pub fn is_less(o: Ordering) -> (r: bool)
    ensures
        r <==> o == Ordering::Less,
{
    match o {
        Ordering::Less => true,
        _ => false,
    }
}

/// Whether the ordering is `Greater`.
pub fn is_greater(o: Ordering) -> (r: bool)
    ensures
        r <==> o == Ordering::Greater,
{
    match o {
        Ordering::Greater => true,
        _ => false,
    }
}

/// Whether the average behind the running sum `current` is known and below
/// the rational `num / den`: `runner * den < units * run_divisor * num`,
/// with every product fitting in a `u128`.
pub open spec fn avg_below(current: Option<u128>, run_divisor: u128, units: u128, num: u64, den: u64) -> bool {
    match current {
        Some(runner) => {
            &&& runner * den <= u128::MAX
            &&& units * run_divisor <= u128::MAX
            &&& units * run_divisor * num <= u128::MAX
            &&& runner * den < units * run_divisor * num
        },
        None => false,
    }
}

/// Whether the average behind the running sum `current` is known and above
/// the rational `num / den`, as for `avg_below`.
pub open spec fn avg_above(current: Option<u128>, run_divisor: u128, units: u128, num: u64, den: u64) -> bool {
    match current {
        Some(runner) => {
            &&& runner * den <= u128::MAX
            &&& units * run_divisor <= u128::MAX
            &&& units * run_divisor * num <= u128::MAX
            &&& runner * den > units * run_divisor * num
        },
        None => false,
    }
}

/// `x` as a `u128`.
pub fn widen(x: u64) -> (r: u128)
    ensures
        r == x,
{
    x as u128
}

/// The product `a * b`, when it fits in a `u128`.
pub fn mul_fits(a: u128, b: u128) -> (r: Option<u128>)
    ensures
        r matches Some(p) ==> p == a * b,
        r is None <==> a * b > u128::MAX,
{
    a.checked_mul(b)
}

/// Compares the average held in `current` against a rational threshold:
/// the running sum times the threshold's denominator against
/// `units * run_divisor` times its numerator. `Equal` (unknown) when there
/// is no current bucket, or when one of the products does not fit in a `u128`.
pub fn avg_rational<H>(run_divisor: u128, units: u128, current: &Option<ChannelBlock<H>>, rational: (u64, u64)) -> (r: Ordering)
    ensures
        match *current {
            Some(b) => if b.spec_runner() * rational.1 <= u128::MAX && units * run_divisor <= u128::MAX
                && units * run_divisor * rational.0 <= u128::MAX {
                orders(r, b.spec_runner() * rational.1, units * run_divisor * rational.0)
            } else {
                r == Ordering::Equal
            },
            None => r == Ordering::Equal,
        },
        (r == Ordering::Less) <==> avg_below(runner_of(*current), run_divisor, units, rational.0, rational.1),
        (r == Ordering::Greater) <==> avg_above(runner_of(*current), run_divisor, units, rational.0, rational.1),
{
    match current {
        Some(block) => {
            let lhs = mul_fits(block.runner(), widen(rational.1));
            let rhs = match mul_fits(units, run_divisor) {
                Some(scale) => mul_fits(scale, widen(rational.0)),
                None => None,
            };
            match (lhs, rhs) {
                (Some(l), Some(h)) => order_u128(l, h),
                _ => Ordering::Equal,
            }
        },
        None => Ordering::Equal,
    }
}

} // verus!
