//! Spans of time on a clock of unsigned 64-bit ticks.

use vstd::prelude::*;

verus! {

/// Whether a span that began at `start` and lasts `span` ticks has run out at `now`.
pub open spec fn span_over(start: u64, span: u64, now: u64) -> bool {
    start + span <= now
}

/// Decides `span_over` without leaving the range of the clock.
pub fn is_span_over(start: u64, span: u64, now: u64) -> (over: bool)
    ensures
        over == span_over(start, span, now),
{
    now >= start && now - start >= span
}

/// The ticks that are left at `now` of a span that began at `start`: zero once it has run
/// out, the whole span before it began.
pub open spec fn span_left(start: u64, span: u64, now: u64) -> int {
    if now <= start {
        span as int
    } else if start + span <= now {
        0
    } else {
        start + span - now
    }
}

/// Computes `span_left`.
pub fn ticks_left(start: u64, span: u64, now: u64) -> (left: u64)
    ensures
        left == span_left(start, span, now),
{
    if now <= start {
        span
    } else if now - start >= span {
        0
    } else {
        span - (now - start)
    }
}

/// The sum of a counter and an amount, held at the largest value of the counter.
pub open spec fn capped_sum(counter: u64, amount: u64) -> u64 {
    if counter + amount > u64::MAX {
        u64::MAX
    } else {
        (counter + amount) as u64
    }
}

/// Computes `capped_sum`.
pub fn add_capped(counter: u64, amount: u64) -> (sum: u64)
    ensures
        sum == capped_sum(counter, amount),
{
    if amount > u64::MAX - counter {
        u64::MAX
    } else {
        counter + amount
    }
}

/// How much per second an amount is that came in over `elapsed` milliseconds, held at the
/// largest value of the counter; there is no rate where no time has passed.
pub open spec fn rate(amount: u64, elapsed: u64) -> Option<u64> {
    if elapsed == 0 {
        None
    } else if amount * 1000 / (elapsed as int) > u64::MAX {
        Some(u64::MAX)
    } else {
        Some((amount * 1000 / (elapsed as int)) as u64)
    }
}

/// Computes `rate`.
pub fn rate_per_second(amount: u64, elapsed: u64) -> (per_second: Option<u64>)
    ensures
        per_second == rate(amount, elapsed),
{
    if elapsed == 0 {
        return None;
    }
    let scaled: u128 = (amount as u128) * 1000;
    let quotient: u128 = scaled / (elapsed as u128);
    if quotient > u64::MAX as u128 {
        Some(u64::MAX)
    } else {
        Some(quotient as u64)
    }
}

} // verus!
