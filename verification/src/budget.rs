//! How the time to connect is shared between the addresses of a host.
//!
//! The shares form a geometric series: the first address gets the largest share, and each share
//! is twice the one that follows it. The weights are whole powers of two, so that the shares of
//! all the addresses add up to exactly the whole budget. With a budget of ten seconds and four
//! addresses the shares are 5.33, 2.67, 1.33 and 0.67 seconds. Background:
//! <https://curl.se/mail/lib-2021-01/0037.html>.

use vstd::prelude::*;

use crate::time;
use crate::time::ExactDuration;

verus! {

/// The least number of milliseconds that an address is given to connect.
pub const MIN_PER_ADDRESS_MILLIS: u64 = 10;

/// The weight of the address at `index` among `num_addrs` addresses:
/// `2^(num_addrs - 1 - index)`, so that the last of them weighs 1.
pub open spec fn weight(num_addrs: nat, index: nat) -> nat {
    vstd::arithmetic::power2::pow2((num_addrs - 1 - index) as nat)
}

/// The weight of all the shares together: `2^num_addrs - 1`.
pub open spec fn total_weight(num_addrs: nat) -> nat {
    (vstd::arithmetic::power2::pow2(num_addrs) - 1) as nat
}

/// The share of a budget of `nanos` nanoseconds that the address at `index` has among
/// `num_addrs` addresses, in whole milliseconds.
pub open spec fn share_millis(nanos: nat, num_addrs: nat, index: nat) -> nat {
    (nanos * weight(num_addrs, index)) / (total_weight(num_addrs)
        * time::NANOS_PER_MILLI as nat)
}

/// The time that the attempt at an address is given, in milliseconds: the share of the address,
/// though not less than [`MIN_PER_ADDRESS_MILLIS`] and not more than 64 bits hold.
pub open spec fn attempt_millis(nanos: nat, num_addrs: nat, index: nat) -> nat {
    let share = share_millis(nanos, num_addrs, index);
    if share < MIN_PER_ADDRESS_MILLIS {
        MIN_PER_ADDRESS_MILLIS as nat
    } else if share > u64::MAX {
        u64::MAX as nat
    } else {
        share
    }
}

/// The sum of the first `count` weights.
pub open spec fn weight_sum(num_addrs: nat, count: nat) -> nat
    decreases count,
{
    if count == 0 {
        0
    } else {
        weight_sum(num_addrs, (count - 1) as nat) + weight(num_addrs, (count - 1) as nat)
    }
}

/// The sum of the first `count` shares, in milliseconds.
pub open spec fn share_sum(nanos: nat, num_addrs: nat, count: nat) -> nat
    decreases count,
{
    if count == 0 {
        0
    } else {
        share_sum(nanos, num_addrs, (count - 1) as nat) + share_millis(
            nanos,
            num_addrs,
            (count - 1) as nat,
        )
    }
}

/// The first `count` weights, of `num_addrs` in all, leave exactly the weights of the rest.
proof fn lemma_weight_sum(num_addrs: nat, count: nat)
    requires
        count <= num_addrs,
    ensures
        weight_sum(num_addrs, count) == vstd::arithmetic::power2::pow2(num_addrs)
            - vstd::arithmetic::power2::pow2((num_addrs - count) as nat),
    decreases count,
{
    if count > 0 {
        lemma_weight_sum(num_addrs, (count - 1) as nat);
        vstd::arithmetic::power2::lemma_pow2_unfold((num_addrs - count + 1) as nat);
    }
}

/// The weights of all the addresses add up to the total weight: the series shares out the
/// whole budget, no less and no more.
pub proof fn lemma_weights_sum_to_total(num_addrs: nat)
    ensures
        weight_sum(num_addrs, num_addrs) == total_weight(num_addrs),
{
    lemma_weight_sum(num_addrs, num_addrs);
    vstd::arithmetic::power2::lemma_pow2(0);
    vstd::arithmetic::power2::lemma2_to64();
}

proof fn lemma_total_weight_positive(num_addrs: nat)
    requires
        0 < num_addrs,
    ensures
        0 < total_weight(num_addrs),
        vstd::arithmetic::power2::pow2(num_addrs) == total_weight(num_addrs) + 1,
{
    vstd::arithmetic::power2::lemma2_to64();
    vstd::arithmetic::power2::lemma_pow2_pos(num_addrs);
    if num_addrs > 1 {
        vstd::arithmetic::power2::lemma_pow2_strictly_increases(1, num_addrs);
    }
}

/// One share, against the part of the budget that its weight stands for.
proof fn lemma_share_bounds(nanos: nat, num_addrs: nat, index: nat)
    requires
        0 < num_addrs,
    ensures
        ({
            let unit = total_weight(num_addrs) * time::NANOS_PER_MILLI as nat;
            let share = share_millis(nanos, num_addrs, index);
            &&& 0 < unit
            &&& share * unit <= nanos * weight(num_addrs, index) < (share + 1) * unit
        }),
{
    lemma_total_weight_positive(num_addrs);
    let unit = total_weight(num_addrs) * time::NANOS_PER_MILLI as nat;
    let part = nanos * weight(num_addrs, index);
    assert(0 < unit) by (nonlinear_arith)
        requires
            0 < total_weight(num_addrs),
            unit == total_weight(num_addrs) * 1_000_000,
    ;
    vstd::arithmetic::div_mod::lemma_fundamental_div_mod(part as int, unit as int);
    vstd::arithmetic::div_mod::lemma_mod_bound(part as int, unit as int);
    let share = share_millis(nanos, num_addrs, index);
    assert(share * unit == unit * share) by (nonlinear_arith);
    assert((share + 1) * unit == unit * share + unit) by (nonlinear_arith);
}

/// The first `count` shares, against the part of the budget that their weights stand for.
proof fn lemma_share_sum_bounds(nanos: nat, num_addrs: nat, count: nat)
    requires
        0 < num_addrs,
    ensures
        ({
            let unit = total_weight(num_addrs) * time::NANOS_PER_MILLI as nat;
            let sum = share_sum(nanos, num_addrs, count);
            &&& sum * unit <= nanos * weight_sum(num_addrs, count)
            &&& count > 0 ==> nanos * weight_sum(num_addrs, count) < (sum + count) * unit
        }),
    decreases count,
{
    let unit = total_weight(num_addrs) * time::NANOS_PER_MILLI as nat;
    if count == 0 {
        assert(nanos * 0 == 0 && 0 * unit == 0) by (nonlinear_arith);
    } else {
        let last = (count - 1) as nat;
        lemma_share_sum_bounds(nanos, num_addrs, last);
        lemma_share_bounds(nanos, num_addrs, last);
        let before = share_sum(nanos, num_addrs, last);
        let share = share_millis(nanos, num_addrs, last);
        let weights = weight_sum(num_addrs, last);
        let w = weight(num_addrs, last);
        assert((before + share) * unit == before * unit + share * unit) by (nonlinear_arith);
        assert((before + share + count) * unit == (before + last) * unit + (share + 1) * unit)
            by (nonlinear_arith)
            requires
                count == last + 1,
        ;
        assert(nanos * (weights + w) == nanos * weights + nanos * w) by (nonlinear_arith);
        if last == 0 {
            assert(nanos * weights == 0 && (before + last) * unit == 0) by (nonlinear_arith)
                requires
                    weights == 0,
                    before + last == 0,
            ;
        }
    }
}

/// The shares of all the addresses together never exceed the budget, and fall short of it only
/// by what each loses in being rounded down to a whole millisecond.
pub proof fn lemma_shares_fill_budget(nanos: nat, num_addrs: nat)
    requires
        0 < num_addrs,
    ensures
        share_sum(nanos, num_addrs, num_addrs) * time::NANOS_PER_MILLI <= nanos,
        nanos < (share_sum(nanos, num_addrs, num_addrs) + num_addrs) * time::NANOS_PER_MILLI,
{
    lemma_share_sum_bounds(nanos, num_addrs, num_addrs);
    lemma_weights_sum_to_total(num_addrs);
    lemma_total_weight_positive(num_addrs);
    let total = total_weight(num_addrs);
    let sum = share_sum(nanos, num_addrs, num_addrs);
    assert(sum * 1_000_000 <= nanos) by (nonlinear_arith)
        requires
            sum * (total * 1_000_000) <= nanos * total,
            0 < total,
    ;
    assert(nanos < (sum + num_addrs) * 1_000_000) by (nonlinear_arith)
        requires
            nanos * total < (sum + num_addrs) * (total * 1_000_000),
            0 < total,
    ;
}

/// The shares of any number of the addresses, the largest first, stay within the budget.
pub proof fn lemma_first_shares_within_budget(nanos: nat, num_addrs: nat, count: nat)
    requires
        count <= num_addrs,
        0 < num_addrs,
    ensures
        share_sum(nanos, num_addrs, count) * time::NANOS_PER_MILLI <= nanos,
    decreases num_addrs - count,
{
    if count == num_addrs {
        lemma_shares_fill_budget(nanos, num_addrs);
    } else {
        lemma_first_shares_within_budget(nanos, num_addrs, count + 1);
    }
}

/// A single address gets the full budget.
pub proof fn lemma_single_address_gets_all(nanos: nat)
    ensures
        share_millis(nanos, 1, 0) == nanos / time::NANOS_PER_MILLI as nat,
{
    vstd::arithmetic::power2::lemma2_to64();
    assert(nanos * 1 == nanos) by (nonlinear_arith);
}

/// Each share is at least twice the one that follows it, and at most that and a millisecond
/// more.
pub proof fn lemma_shares_halve(nanos: nat, num_addrs: nat, index: nat)
    requires
        index + 1 < num_addrs,
    ensures
        ({
            let next = share_millis(nanos, num_addrs, index + 1);
            2 * next <= share_millis(nanos, num_addrs, index) <= 2 * next + 1
        }),
{
    lemma_share_bounds(nanos, num_addrs, index);
    lemma_share_bounds(nanos, num_addrs, index + 1);
    vstd::arithmetic::power2::lemma_pow2_unfold((num_addrs - 1 - index) as nat);
    let unit = total_weight(num_addrs) * time::NANOS_PER_MILLI as nat;
    let share = share_millis(nanos, num_addrs, index);
    let next = share_millis(nanos, num_addrs, index + 1);
    let w = weight(num_addrs, index + 1);
    assert(nanos * (2 * w) == 2 * (nanos * w)) by (nonlinear_arith);
    assert(2 * next <= share <= 2 * next + 1) by (nonlinear_arith)
        requires
            0 < unit,
            share * unit < 2 * ((next + 1) * unit),
            2 * (next * unit) < (share + 1) * unit,
    ;
}

/// The time that the attempts at the first `count` addresses are given, in milliseconds.
pub open spec fn attempt_sum(nanos: nat, num_addrs: nat, count: nat) -> nat
    decreases count,
{
    if count == 0 {
        0
    } else {
        attempt_sum(nanos, num_addrs, (count - 1) as nat) + attempt_millis(
            nanos,
            num_addrs,
            (count - 1) as nat,
        )
    }
}

/// The time that attempts are given, against their shares.
proof fn lemma_attempt_sum(nanos: nat, num_addrs: nat, count: nat)
    requires
        count <= num_addrs,
    ensures
        attempt_sum(nanos, num_addrs, count) <= share_sum(nanos, num_addrs, count) + count
            * MIN_PER_ADDRESS_MILLIS,
        (count > 0 && share_millis(nanos, num_addrs, (count - 1) as nat)
            >= MIN_PER_ADDRESS_MILLIS) ==> attempt_sum(nanos, num_addrs, count) <= share_sum(
            nanos,
            num_addrs,
            count,
        ),
    decreases count,
{
    if count > 0 {
        lemma_attempt_sum(nanos, num_addrs, (count - 1) as nat);
        if count > 1 {
            lemma_shares_halve(nanos, num_addrs, (count - 2) as nat);
        }
    }
}

/// The time that the attempts at the first addresses are given stays within the budget as long
/// as their shares are not below the least time that every attempt is given. At worst it is over
/// by that least time for each of them.
pub proof fn lemma_attempts_within_budget(nanos: nat, num_addrs: nat, count: nat)
    requires
        0 < count <= num_addrs,
    ensures
        share_millis(nanos, num_addrs, (count - 1) as nat) >= MIN_PER_ADDRESS_MILLIS
            ==> attempt_sum(nanos, num_addrs, count) * time::NANOS_PER_MILLI <= nanos,
        attempt_sum(nanos, num_addrs, count) * time::NANOS_PER_MILLI <= nanos + count
            * MIN_PER_ADDRESS_MILLIS * time::NANOS_PER_MILLI,
{
    lemma_attempt_sum(nanos, num_addrs, count);
    lemma_first_shares_within_budget(nanos, num_addrs, count);
}

/// The division that [`share_millis`] asks for, taken in steps that stay small.
proof fn lemma_share_in_steps(nanos: nat, num_addrs: nat, index: nat)
    requires
        index < num_addrs,
    ensures
        share_millis(nanos, num_addrs, index) == ((nanos + nanos / total_weight(num_addrs))
            / time::NANOS_PER_MILLI as nat) / vstd::arithmetic::power2::pow2(index + 1),
{
    lemma_total_weight_positive(num_addrs);
    let n = total_weight(num_addrs) as int;
    let m = 1_000_000int;
    let p = vstd::arithmetic::power2::pow2(index + 1) as int;
    let a = weight(num_addrs, index) as int;
    let t = nanos as int;
    vstd::arithmetic::power2::lemma_pow2_pos(index + 1);
    vstd::arithmetic::power2::lemma_pow2_adds((num_addrs - 1 - index) as nat, index + 1);
    assert(a * p == n + 1);
    vstd::arithmetic::div_mod::lemma_div_denominator(t + t / n, m, p);
    vstd::arithmetic::div_mod::lemma_hoist_over_denominator(t, t, n as nat);
    assert(t + t / n == (t * a * p) / n) by {
        assert(t + t * n == t * a * p) by (nonlinear_arith)
            requires
                a * p == n + 1,
        ;
    }
    assert(0 < m * p) by (nonlinear_arith)
        requires
            m == 1_000_000,
            0 < p,
    ;
    vstd::arithmetic::div_mod::lemma_div_denominator(t * a * p, n, m * p);
    assert(n * (m * p) == p * (n * m)) by (nonlinear_arith);
    assert(t * a * p == p * (t * a)) by (nonlinear_arith);
    assert(0 < n * m) by (nonlinear_arith)
        requires
            m == 1_000_000,
            0 < n,
    ;
    assert(0 <= t * a) by (nonlinear_arith)
        requires
            0 <= t,
            0 <= a,
    ;
    vstd::arithmetic::div_mod::lemma_div_multiples_vanish_quotient(p, t * a, n * m);
}

/// The time to give to the attempt at the address at `index`, out of a budget of `total` for
/// `num_addrs` addresses.
pub fn attempt_budget(total: ExactDuration, num_addrs: usize, index: usize) -> (share:
    ExactDuration)
    requires
        index < num_addrs,
    ensures
        share@ == attempt_millis(total@, num_addrs as nat, index as nat)
            * time::NANOS_PER_MILLI,
{
    let nanos: u128 = total.as_nanos();
    proof {
        lemma_share_in_steps(nanos as nat, num_addrs as nat, index as nat);
        lemma_total_weight_positive(num_addrs as nat);
        vstd::arithmetic::power2::lemma_pow2_pos(index as nat + 1);
    }
    let rest: u128 = if num_addrs < 100 {
        let all: u128 = power_of_two(num_addrs as u32) - 1;
        nanos / all
    } else {
        proof {
            lemma_beyond_nanos(num_addrs as nat);
            vstd::arithmetic::div_mod::lemma_basic_div(
                nanos as int,
                total_weight(num_addrs as nat) as int,
            );
        }
        0
    };
    proof {
        vstd::arithmetic::div_mod::lemma_div_nonincreasing(
            nanos as int,
            total_weight(num_addrs as nat) as int,
        );
    }
    let millis: u128 = (nanos + rest) / time::NANOS_PER_MILLI as u128;
    let share: u128 = if index < 99 {
        let divisor: u128 = power_of_two(index as u32 + 1);
        millis / divisor
    } else {
        proof {
            lemma_beyond_nanos(index as nat + 1);
            vstd::arithmetic::div_mod::lemma_basic_div(
                millis as int,
                vstd::arithmetic::power2::pow2(index as nat + 1) as int,
            );
        }
        0
    };
    if share < MIN_PER_ADDRESS_MILLIS as u128 {
        ExactDuration::from_millis(MIN_PER_ADDRESS_MILLIS)
    } else if share > u64::MAX as u128 {
        ExactDuration::from_millis(u64::MAX)
    } else {
        ExactDuration::from_millis(share as u64)
    }
}

/// A power of two with a hundred bits is more than the nanoseconds of any duration.
proof fn lemma_beyond_nanos(exponent: nat)
    requires
        100 <= exponent,
    ensures
        0x1_0000_0000_0000_0000 * 1_000_000_000 < vstd::arithmetic::power2::pow2(exponent) - 1,
{
    vstd::arithmetic::power2::lemma2_to64();
    vstd::arithmetic::power2::lemma2_to64_rest();
    vstd::arithmetic::power2::lemma_pow2_adds(64, 32);
    vstd::arithmetic::power2::lemma_pow2_adds(96, 4);
    if exponent > 100 {
        vstd::arithmetic::power2::lemma_pow2_strictly_increases(100, exponent);
    }
}

/// `2^exponent`.
fn power_of_two(exponent: u32) -> (power: u128)
    requires
        exponent < 100,
    ensures
        power == vstd::arithmetic::power2::pow2(exponent as nat),
{
    let mut power: u128 = 1;
    let mut done: u32 = 0;
    proof {
        vstd::arithmetic::power2::lemma2_to64();
    }
    while done < exponent
        invariant
            done <= exponent < 100,
            power == vstd::arithmetic::power2::pow2(done as nat),
        decreases exponent - done,
    {
        proof {
            vstd::arithmetic::power2::lemma_pow2_unfold((done + 1) as nat);
            vstd::arithmetic::power2::lemma2_to64();
            vstd::arithmetic::power2::lemma2_to64_rest();
            vstd::arithmetic::power2::lemma_pow2_adds(64, 36);
            vstd::arithmetic::power2::lemma_pow2_strictly_increases(done as nat, 100);
        }
        power = power * 2;
        done = done + 1;
    }
    power
}

/// Whether `given` nanoseconds are what is due to the address at `index`, out of a budget of
/// `nanos` nanoseconds for `num_addrs` addresses. They are whole milliseconds, ten at least. Past
/// that they are not more than the part of the budget that the address has in the series, which
/// is `2^(num_addrs - 1 - index)` parts out of `2^num_addrs - 1`; and they fall short of it by
/// less than a millisecond, unless 64 bits hold no more.
pub open spec fn is_due(given: nat, nanos: nat, num_addrs: nat, index: nat) -> bool {
    let millis = given / 1_000_000;
    let part = nanos * vstd::arithmetic::power2::pow2((num_addrs - 1 - index) as nat);
    let whole = (vstd::arithmetic::power2::pow2(num_addrs) - 1) * 1_000_000;
    &&& given == millis * 1_000_000
    &&& millis >= 10
    &&& millis > 10 ==> millis * whole <= part
    &&& millis < u64::MAX ==> part < (millis + 1) * whole
}

/// The time that the attempt at an address is given is the one that is due to it.
pub proof fn lemma_attempt_is_due(nanos: nat, num_addrs: nat, index: nat)
    requires
        index < num_addrs,
    ensures
        is_due(
            attempt_millis(nanos, num_addrs, index) * 1_000_000,
            nanos,
            num_addrs,
            index,
        ),
{
    lemma_share_bounds(nanos, num_addrs, index);
    lemma_total_weight_positive(num_addrs);
    let given = attempt_millis(nanos, num_addrs, index);
    let share = share_millis(nanos, num_addrs, index);
    let whole = (vstd::arithmetic::power2::pow2(num_addrs) - 1) * 1_000_000;
    let part = nanos * weight(num_addrs, index);
    vstd::arithmetic::div_mod::lemma_div_by_multiple(given as int, 1_000_000);
    assert(given <= share ==> given * whole <= part) by (nonlinear_arith)
        requires
            share * whole <= part,
            0 < whole,
    ;
    assert(share <= given ==> part < (given + 1) * whole) by (nonlinear_arith)
        requires
            part < (share + 1) * whole,
            0 < whole,
    ;
}

/// Every address is given the time that is due to it: its part of the budget rounded down to
/// whole milliseconds, though never less than ten. In particular nobody is given less than that.
pub proof fn lemma_address_gets_its_due(
    total: ExactDuration,
    num_addrs: usize,
    index: usize,
    given: ExactDuration,
)
    requires
        index < num_addrs,
        call_ensures(attempt_budget, (total, num_addrs, index), given),
    ensures
        is_due(given@, total@, num_addrs as nat, index as nat),
{
    lemma_attempt_is_due(total@, num_addrs as nat, index as nat);
}

/// A single address gets the full budget, in whole milliseconds, though never less than ten.
pub proof fn lemma_only_address_gets_everything(total: ExactDuration, given: ExactDuration)
    requires
        total@ <= u64::MAX * 1_000_000,
        call_ensures(attempt_budget, (total, 1usize, 0usize), given),
    ensures
        total@ < 10_000_000 ==> given@ == 10_000_000,
        total@ >= 10_000_000 ==> given@ <= total@ < given@ + 1_000_000,
        given@ % 1_000_000 == 0,
{
    lemma_single_address_gets_all(total@);
}

/// The address that comes next is given half of the time of the one before it, as far as whole
/// milliseconds allow and as long as the half is more than the least time.
pub proof fn lemma_next_address_gets_half(
    total: ExactDuration,
    num_addrs: usize,
    index: usize,
    given: ExactDuration,
    next: ExactDuration,
)
    requires
        index + 1 < num_addrs,
        total@ <= u64::MAX * 1_000_000,
        call_ensures(attempt_budget, (total, num_addrs, index), given),
        call_ensures(attempt_budget, (total, num_addrs, (index + 1) as usize), next),
    ensures
        next@ <= given@,
        next@ > 10_000_000 ==> 2 * next@ <= given@ <= 2 * next@ + 1_000_000,
{
    let n = num_addrs as nat;
    lemma_shares_halve(total@, n, index as nat);
    lemma_share_within(total@, n, index as nat);
    lemma_share_within(total@, n, index as nat + 1);
}

/// No share is more than the whole budget.
proof fn lemma_share_within(nanos: nat, num_addrs: nat, index: nat)
    requires
        index < num_addrs,
    ensures
        share_millis(nanos, num_addrs, index) * 1_000_000 <= nanos,
{
    lemma_first_shares_within_budget(nanos, num_addrs, index + 1);
}

/// The length of durations together, in nanoseconds.
pub open spec fn nanos_together(given: Seq<ExactDuration>) -> nat
    decreases given.len(),
{
    if given.len() == 0 {
        0
    } else {
        nanos_together(given.drop_last()) + given.last()@
    }
}

/// The times that all the addresses are given together use the budget up, but for less than a
/// millisecond for each of them. They are over it by the least time for each at worst, and by
/// nothing if the last of them is given more than the least time.
pub proof fn lemma_times_use_the_budget_up(
    total: ExactDuration,
    num_addrs: usize,
    given: Seq<ExactDuration>,
)
    requires
        0 < num_addrs == given.len(),
        total@ <= u64::MAX * 1_000_000,
        forall|i: int|
            0 <= i < given.len() ==> call_ensures(
                attempt_budget,
                (total, num_addrs, i as usize),
                #[trigger] given[i],
            ),
    ensures
        total@ < nanos_together(given) + num_addrs * 1_000_000,
        nanos_together(given) <= total@ + num_addrs * 10_000_000,
        given.last()@ > 10_000_000 ==> nanos_together(given) <= total@,
{
    let n = num_addrs as nat;
    assert(given.take(n as int) =~= given);
    lemma_given_is_attempt_sum(total, num_addrs, given, n);
    lemma_attempts_within_budget(total@, n, n);
    lemma_attempt_sum_fills(total@, n, n);
    lemma_shares_fill_budget(total@, n);
    assert(given.last() == given[n - 1]);
}

proof fn lemma_given_is_attempt_sum(
    total: ExactDuration,
    num_addrs: usize,
    given: Seq<ExactDuration>,
    count: nat,
)
    requires
        count <= given.len() == num_addrs,
        forall|i: int|
            0 <= i < given.len() ==> call_ensures(
                attempt_budget,
                (total, num_addrs, i as usize),
                #[trigger] given[i],
            ),
    ensures
        nanos_together(given.take(count as int)) == attempt_sum(total@, num_addrs as nat, count)
            * 1_000_000,
    decreases count,
{
    if count > 0 {
        let last = (count - 1) as nat;
        lemma_given_is_attempt_sum(total, num_addrs, given, last);
        assert(given.take(count as int).drop_last() =~= given.take(last as int));
        assert(given.take(count as int).last() == given[last as int]);
        assert(call_ensures(attempt_budget, (total, num_addrs, last as usize), given[last as int]));
    }
}

proof fn lemma_attempt_sum_fills(nanos: nat, num_addrs: nat, count: nat)
    requires
        count <= num_addrs,
        nanos <= u64::MAX * 1_000_000,
    ensures
        share_sum(nanos, num_addrs, count) <= attempt_sum(nanos, num_addrs, count),
    decreases count,
{
    if count > 0 {
        lemma_attempt_sum_fills(nanos, num_addrs, (count - 1) as nat);
        lemma_share_within(nanos, num_addrs, (count - 1) as nat);
    }
}

} // verus!
