//! The vesting calculator: how much of a deposit has been released at a
//! given instant.

use vstd::prelude::*;
use vstd::arithmetic::div_mod::{
    lemma_div_is_ordered, lemma_div_multiples_vanish, lemma_fundamental_div_mod,
    lemma_hoist_over_denominator,
};

verus! {

/// The part of `deposit` that has vested at `now`, for a stream that runs
/// from `start` to `end`: nothing up to `start`, everything from `end` on,
/// and in between the share of the window that has elapsed, rounded down.
pub open spec fn vested_amount(deposit: int, start: int, end: int, now: int) -> int {
    if now <= start {
        0
    } else if now >= end {
        deposit
    } else {
        (deposit * (now - start)) / (end - start)
    }
}

/// The vested amount never leaves the range from nothing to the deposit.
pub proof fn lemma_vested_bounds(deposit: int, start: int, end: int, now: int)
    requires
        0 <= deposit,
        start < end,
    ensures
        0 <= vested_amount(deposit, start, end, now) <= deposit,
{
    if start < now && now < end {
        let run = now - start;
        let span = end - start;
        assert(0 <= deposit * run) by (nonlinear_arith)
            requires
                0 <= deposit,
                0 <= run,
        ;
        assert(deposit * run <= deposit * span) by (nonlinear_arith)
            requires
                0 <= deposit,
                run <= span,
        ;
        lemma_div_is_ordered(0, deposit * run, span);
        lemma_div_is_ordered(deposit * run, deposit * span, span);
        lemma_div_multiples_vanish(deposit, span);
        assert(deposit * span == span * deposit) by (nonlinear_arith);
        assert(0int / span == 0) by (nonlinear_arith)
            requires
                span > 0,
        ;
    }
}

/// Vesting never runs backwards: a later instant has vested at least as much
/// as an earlier one.
pub proof fn lemma_vested_monotonic(deposit: int, start: int, end: int, earlier: int, later: int)
    requires
        0 <= deposit,
        start < end,
        earlier <= later,
    ensures
        vested_amount(deposit, start, end, earlier) <= vested_amount(deposit, start, end, later),
{
    lemma_vested_bounds(deposit, start, end, earlier);
    lemma_vested_bounds(deposit, start, end, later);
    if start < earlier && later < end {
        let span = end - start;
        assert(deposit * (earlier - start) <= deposit * (later - start)) by (nonlinear_arith)
            requires
                0 <= deposit,
                earlier <= later,
        ;
        lemma_div_is_ordered(deposit * (earlier - start), deposit * (later - start), span);
    }
}

/// At the edges of the window the amount is exact: nothing has vested when
/// the stream starts, and the whole deposit when it ends, with no remainder
/// lost to rounding.
pub proof fn lemma_vested_edges(deposit: int, start: int, end: int, now: int)
    requires
        start < end,
    ensures
        now <= start ==> vested_amount(deposit, start, end, now) == 0,
        now >= end ==> vested_amount(deposit, start, end, now) == deposit,
        vested_amount(deposit, start, end, end) == deposit,
{
}

/// Computes the vested part of `deposit` at `now`. The product of the
/// deposit and the elapsed time may not fit in 128 bits, so the deposit is
/// split into whole multiples of the window's length and a remainder.
pub fn compute_vested(deposit: i128, start_time: u64, end_time: u64, now: u64) -> (amount: i128)
    requires
        0 < deposit,
        start_time < end_time,
    ensures
        amount == vested_amount(deposit as int, start_time as int, end_time as int, now as int),
        0 <= amount <= deposit,
{
    proof {
        lemma_vested_bounds(deposit as int, start_time as int, end_time as int, now as int);
    }
    if now <= start_time {
        return 0;
    }
    if now >= end_time {
        return deposit;
    }
    let run: u128 = (now - start_time) as u128;
    let span: u128 = (end_time - start_time) as u128;
    let whole: u128 = (deposit as u128) / span;
    let rest: u128 = (deposit as u128) % span;
    proof {
        let d = deposit as int;
        let r = run as int;
        let s = span as int;
        let w = whole as int;
        let m = rest as int;
        lemma_fundamental_div_mod(d, s);
        assert(d == s * w + m);
        assert(0 <= m < s);
        assert(d * r == (w * r) * s + m * r) by (nonlinear_arith)
            requires
                d == s * w + m,
        ;
        lemma_hoist_over_denominator(m * r, w * r, s as nat);
        assert((d * r) / s == w * r + (m * r) / s);
        assert(0 <= w * r) by (nonlinear_arith)
            requires
                0 <= w,
                0 <= r,
        ;
        assert(0 <= m * r < s * s) by (nonlinear_arith)
            requires
                0 <= m < s,
                0 <= r < s,
        ;
        assert(s * s <= 0x1_0000_0000_0000_0000 * 0x1_0000_0000_0000_0000) by (nonlinear_arith)
            requires
                0 < s <= 0x1_0000_0000_0000_0000,
        ;
        lemma_div_is_ordered(0, m * r, s);
        assert(0int / s == 0) by (nonlinear_arith)
            requires
                s > 0,
        ;
    }
    let head: u128 = whole * run;
    let tail: u128 = (rest * run) / span;
    (head + tail) as i128
}

} // verus!
