use vstd::prelude::*;
use vstd::arithmetic::div_mod::{
    lemma_div_is_ordered, lemma_div_of0, lemma_div_pos_is_pos, lemma_multiply_divide_le,
};
use vstd::arithmetic::mul::{lemma_mul_inequality, lemma_mul_left_inequality, lemma_mul_nonnegative};

verus! {

/// Fixed-point scale of the issued token: token amounts carry seven decimal
/// places, so one whole token is `10_000_000` units.
pub const TOKEN_SCALE: i128 = 10_000_000;

/// How much of `allocated` has unlocked by `now` under a linear schedule that
/// starts at `vesting_start` and runs for `duration`: nothing before the
/// start, the whole allocation once `duration` has elapsed (in particular
/// when `duration == 0`), and the floor of the linear interpolation in
/// between. Subtraction of the start time saturates at zero.
pub open spec fn spec_vested(allocated: int, vesting_start: int, duration: int, now: int) -> int {
    let elapsed = if now >= vesting_start {
        now - vesting_start
    } else {
        0
    };
    if elapsed >= duration {
        allocated
    } else {
        allocated * elapsed / duration
    }
}

/// The vested amount never lies outside `[0, allocated]`.
pub proof fn lemma_vested_bounds(allocated: int, vesting_start: int, duration: int, now: int)
    requires
        allocated >= 0,
    ensures
        0 <= spec_vested(allocated, vesting_start, duration, now) <= allocated,
{
    let elapsed = if now >= vesting_start {
        now - vesting_start
    } else {
        0
    };
    if elapsed < duration {
        lemma_mul_nonnegative(allocated, elapsed);
        lemma_div_pos_is_pos(allocated * elapsed, duration);
        lemma_mul_inequality(elapsed, duration, allocated);
        assert(allocated * elapsed <= duration * allocated);
        lemma_multiply_divide_le(allocated * elapsed, duration, allocated);
    }
}

/// The vested amount is non-decreasing in the current time.
pub proof fn lemma_vested_monotonic(
    allocated: int,
    vesting_start: int,
    duration: int,
    t1: int,
    t2: int,
)
    requires
        allocated >= 0,
        t1 <= t2,
    ensures
        spec_vested(allocated, vesting_start, duration, t1) <= spec_vested(
            allocated,
            vesting_start,
            duration,
            t2,
        ),
{
    let e1 = if t1 >= vesting_start {
        t1 - vesting_start
    } else {
        0
    };
    let e2 = if t2 >= vesting_start {
        t2 - vesting_start
    } else {
        0
    };
    assert(e1 <= e2);
    if e1 >= duration {
    } else if e2 >= duration {
        lemma_vested_bounds(allocated, vesting_start, duration, t1);
    } else {
        if allocated == 0 {
            lemma_div_of0(duration);
            assert(allocated * e1 == 0);
            assert(allocated * e2 == 0);
        } else {
            lemma_mul_left_inequality(allocated, e1, e2);
            lemma_div_is_ordered(allocated * e1, allocated * e2, duration);
        }
    }
}

/// Nothing is vested at the very start of a schedule of positive duration.
/// (With `duration == 0` the whole allocation is vested immediately, so the
/// start-time value is `allocated` there, not zero.)
pub proof fn lemma_vested_at_start(allocated: int, vesting_start: int, duration: int)
    requires
        allocated >= 0,
        duration > 0,
    ensures
        spec_vested(allocated, vesting_start, duration, vesting_start) == 0,
{
    assert(allocated * 0 == 0);
    lemma_div_of0(duration);
}

/// From the end of the schedule onward the whole allocation is vested,
/// exactly: the boundary is handled by the full-unlock branch, so no dust is
/// lost at maturity.
pub proof fn lemma_vested_at_maturity(
    allocated: int,
    vesting_start: int,
    duration: int,
    now: int,
)
    requires
        duration >= 0,
        now >= vesting_start + duration,
    ensures
        spec_vested(allocated, vesting_start, duration, now) == allocated,
{
}

/// Computes the vested amount at `now`. The fixed-point arithmetic is exact
/// integer floor division; the caller rules out overflow of the single
/// intermediate product.
pub fn vested_amount(allocated: i128, vesting_start: u64, duration: u64, now: u64) -> (r: i128)
    requires
        allocated >= 0,
        now > vesting_start && now - vesting_start < duration ==> allocated * (now
            - vesting_start) <= i128::MAX,
    ensures
        r == spec_vested(allocated as int, vesting_start as int, duration as int, now as int),
        0 <= r <= allocated,
{
    proof {
        lemma_vested_bounds(allocated as int, vesting_start as int, duration as int, now as int);
    }
    let elapsed: u64 = if now >= vesting_start {
        now - vesting_start
    } else {
        0
    };
    if elapsed >= duration {
        allocated
    } else {
        proof {
            lemma_mul_nonnegative(allocated as int, elapsed as int);
        }
        (allocated * (elapsed as i128)) / (duration as i128)
    }
}

} // verus!
