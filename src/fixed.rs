use vstd::prelude::*;

verus! {

/// The fixed-point scale: a fractional quantity `x` is held as `x * UNIT`.
pub const UNIT: u64 = 1_000_000_000;

/// The largest fitness a genome may hold (2.0).
pub const MAX_FITNESS: u64 = 2_000_000_000;

/// `x` clamped to `[lo, hi]`.
pub open spec fn clamp(x: int, lo: int, hi: int) -> int {
    if x < lo {
        lo
    } else if x > hi {
        hi
    } else {
        x
    }
}

/// `base` raised to `exp`.
pub open spec fn pow_nat(base: nat, exp: nat) -> nat
    decreases exp,
{
    if exp == 0 {
        1
    } else {
        base * pow_nat(base, (exp - 1) as nat)
    }
}

} // verus!
