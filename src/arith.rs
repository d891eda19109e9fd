use vstd::prelude::*;

verus! {

/// The percentage actually applied for `perc`: percentages above 100 count as 100.
pub open spec fn capped_percent(perc: u32) -> int {
    if perc > 100 {
        100
    } else {
        perc as int
    }
}

/// `perc` percent of `amount`, rounded down.
pub open spec fn percent_of(perc: u32, amount: u128) -> int {
    amount * capped_percent(perc) / 100
}

/// Relies on sp_arithmetic's `Permill::from_percent` (which caps the percentage at 100)
/// and `Permill::mul_floor` (which multiplies without overflow and rounds down).
#[verifier::external_body]
fn permill_mul_floor(perc: u32, amount: u128) -> (r: u128)
    ensures
        r == percent_of(perc, amount),
{
    sp_arithmetic::Permill::from_percent(perc).mul_floor(amount)
}

/// The next minimum bid after an accepted bid of `amount`, or `None` where it overflows.
pub open spec fn next_bid_min_after(perc: u32, amount: u128) -> Option<u128> {
    let n = amount + percent_of(perc, amount);
    if n <= u128::MAX {
        Some(n as u128)
    } else {
        None
    }
}

/// The next minimum bid after an accepted bid of `amount`: the amount raised by
/// `perc` percent of itself, rounded down; `None` where that overflows.
pub fn next_bid_min(perc: u32, amount: u128) -> (r: Option<u128>)
    ensures
        r == next_bid_min_after(perc, amount),
{
    let step = permill_mul_floor(perc, amount);
    amount.checked_add(step)
}

/// The end of an auction after a bid at height `now`: where fewer than `add_blocks`
/// blocks are left, the end moves to `now + add_blocks` (saturating).
pub open spec fn extended_end(end: u64, now: u64, add_blocks: u32) -> u64 {
    if end - now < add_blocks {
        if now + add_blocks > u64::MAX {
            u64::MAX
        } else {
            (now + add_blocks) as u64
        }
    } else {
        end
    }
}

/// The end of an auction after a bid at height `now` (see [`extended_end`]);
/// `None` where `now` is past `end`.
pub fn anti_sniping_end(end: u64, now: u64, add_blocks: u32) -> (r: Option<u64>)
    ensures
        now > end ==> r is None,
        now <= end ==> r == Some(extended_end(end, now, add_blocks)),
        r matches Some(e) ==> e >= end,
{
    match end.checked_sub(now) {
        None => None,
        Some(time_left) => {
            if time_left < add_blocks as u64 {
                Some(now.saturating_add(add_blocks as u64))
            } else {
                Some(end)
            }
        },
    }
}

} // verus!
