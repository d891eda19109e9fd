use vstd::prelude::*;

verus! {

/// A pool weight.
pub type LBPWeight = u128;

/// Why a weight cannot be computed.
#[derive(Clone, Copy, Debug, PartialEq, Eq, Structural)]
pub enum MathError {
    /// A block number does not fit in 32 bits, the block lies outside the interval, or
    /// the arithmetic overflows.
    Overflow,
    /// The interval is empty.
    ZeroDuration,
}

/// The weight at block `at`, interpolated linearly between `start_y` at block `start_x`
/// and `end_y` at block `end_x`, rounded down.
pub open spec fn linear_weight(start_x: u64, end_x: u64, start_y: LBPWeight, end_y: LBPWeight, at: u64) -> Result<
    LBPWeight,
    MathError,
> {
    let left = start_y * (end_x - at);
    let right = end_y * (at - start_x);
    if start_x > u32::MAX || end_x > u32::MAX || at > u32::MAX {
        Err(MathError::Overflow)
    } else if at > end_x || at < start_x {
        Err(MathError::Overflow)
    } else if end_x == start_x {
        Err(MathError::ZeroDuration)
    } else if left > u128::MAX || right > u128::MAX || left + right > u128::MAX {
        Err(MathError::Overflow)
    } else {
        Ok(((left + right) / (end_x - start_x)) as LBPWeight)
    }
}

/// Computes the weight at block `at` of a weight that moves linearly from `start_y` at
/// block `start_x` to `end_y` at block `end_x`.
pub fn calculate_linear_weights(
    start_x: u64,
    end_x: u64,
    start_y: LBPWeight,
    end_y: LBPWeight,
    at: u64,
) -> (r: Result<LBPWeight, MathError>)
    ensures
        r == linear_weight(start_x, end_x, start_y, end_y, at),
{
    if start_x > u32::MAX as u64 || end_x > u32::MAX as u64 || at > u32::MAX as u64 {
        return Err(MathError::Overflow);
    }
    let d1 = match end_x.checked_sub(at) {
        Some(d) => d,
        None => {
            return Err(MathError::Overflow);
        },
    };
    let d2 = match at.checked_sub(start_x) {
        Some(d) => d,
        None => {
            return Err(MathError::Overflow);
        },
    };
    let dx = match end_x.checked_sub(start_x) {
        Some(d) => d,
        None => {
            return Err(MathError::Overflow);
        },
    };
    if dx == 0 {
        return Err(MathError::ZeroDuration);
    }
    let left = match start_y.checked_mul(d1 as u128) {
        Some(v) => v,
        None => {
            return Err(MathError::Overflow);
        },
    };
    let right = match end_y.checked_mul(d2 as u128) {
        Some(v) => v,
        None => {
            return Err(MathError::Overflow);
        },
    };
    let sum = match left.checked_add(right) {
        Some(v) => v,
        None => {
            return Err(MathError::Overflow);
        },
    };
    Ok(sum / dx as u128)
}

} // verus!
