//! Integer helpers shared by the recurrence computations.

use crate::isoweek::{iso_week_start, monday_of_week, IsoWeek};
use vstd::prelude::*;

verus! {

/// Absolute value of a mathematical integer.
pub open spec fn abs_int(n: int) -> int {
    if n < 0 {
        -n
    } else {
        n
    }
}

/// The value that [`round_up_to_multiple`] returns.
///
/// With a zero `multiple` the input is returned unchanged. Otherwise the
/// remainder of `|n|` modulo `|multiple|` decides: a multiple stays as it is, a
/// negative `n` moves towards zero, and any other `n` moves up by one
/// `multiple` less the remainder.
pub open spec fn round_up_spec(n: int, multiple: int) -> int {
    if multiple == 0 {
        n
    } else {
        let remainder = abs_int(n) % abs_int(multiple);
        if remainder == 0 {
            n
        } else if n < 0 {
            -(abs_int(n) - remainder)
        } else {
            n + multiple - remainder
        }
    }
}

/// For a positive `multiple` the rounded value is the least multiple of
/// `multiple` that is not below `n`.
pub proof fn lemma_round_up_is_least_multiple(n: int, multiple: int)
    requires
        multiple > 0,
    ensures
        round_up_spec(n, multiple) % multiple == 0,
        n <= round_up_spec(n, multiple) < n + multiple,
        forall|k: int| n <= #[trigger] (k * multiple) ==> round_up_spec(n, multiple) <= k * multiple,
{
    let r = round_up_spec(n, multiple);
    let a = abs_int(n);
    let rem = a % multiple;
    vstd::arithmetic::div_mod::lemma_fundamental_div_mod(a, multiple);
    let q = a / multiple;
    assert(a == multiple * q + rem);
    if rem == 0 {
        if n < 0 {
            assert(n == multiple * (-q)) by (nonlinear_arith)
                requires n == -a, a == multiple * q + rem, rem == 0;
            vstd::arithmetic::div_mod::lemma_mod_multiples_basic(-q, multiple);
            assert((-q) * multiple == multiple * (-q)) by (nonlinear_arith);
        } else {
            vstd::arithmetic::div_mod::lemma_mod_multiples_basic(q, multiple);
            assert(q * multiple == multiple * q) by (nonlinear_arith);
        }
    } else if n < 0 {
        assert(r == multiple * (-q)) by (nonlinear_arith)
            requires r == -(a - rem), a == multiple * q + rem;
        vstd::arithmetic::div_mod::lemma_mod_multiples_basic(-q, multiple);
        assert((-q) * multiple == multiple * (-q)) by (nonlinear_arith);
    } else {
        assert(r == multiple * (q + 1)) by (nonlinear_arith)
            requires r == n + multiple - rem, n == a, a == multiple * q + rem;
        vstd::arithmetic::div_mod::lemma_mod_multiples_basic(q + 1, multiple);
        assert((q + 1) * multiple == multiple * (q + 1)) by (nonlinear_arith);
    }
    assert forall|k: int| n <= #[trigger] (k * multiple) implies r <= k * multiple by {
        if k * multiple < r {
            // Two multiples of `multiple` that differ by less than `multiple` are equal.
            let j = r / multiple;
            vstd::arithmetic::div_mod::lemma_fundamental_div_mod(r, multiple);
            assert(r == multiple * j);
            assert(j - k >= 1) by (nonlinear_arith)
                requires k * multiple < multiple * j, multiple > 0;
            assert(r - k * multiple >= multiple) by (nonlinear_arith)
                requires r == multiple * j, j - k >= 1, multiple > 0;
        }
    }
}

/// Rounds `n` to a multiple of `multiple`, away from `n` only upwards.
///
/// A zero `multiple` leaves `n` unchanged. The result must fit an `i64` and
/// `n` must have an absolute value, which rules out `i64::MIN`.
pub fn round_up_to_multiple(n: i64, multiple: i64) -> (res: i64)
    requires
        multiple != 0 ==> n > i64::MIN,
        i64::MIN <= round_up_spec(n as int, multiple as int) <= i64::MAX,
    ensures
        res == round_up_spec(n as int, multiple as int),
        multiple > 0 ==> (res as int) % (multiple as int) == 0 && n <= res < n + multiple,
{
    if multiple == 0 {
        return n;
    }
    proof {
        if multiple > 0 {
            lemma_round_up_is_least_multiple(n as int, multiple as int);
        }
    }
    let magnitude: i64 = if n < 0 { -n } else { n };
    let remainder: i64 = if multiple == i64::MIN {
        proof {
            vstd::arithmetic::div_mod::lemma_small_mod(magnitude as nat, abs_int(multiple as int) as nat);
        }
        magnitude
    } else if multiple < 0 {
        magnitude % (-multiple)
    } else {
        magnitude % multiple
    };
    if remainder == 0 {
        return n;
    }
    if n < 0 {
        -(magnitude - remainder)
    } else if multiple > 0 {
        n + (multiple - remainder)
    } else {
        (n + multiple) - remainder
    }
}

/// The ISO week with the given year and number, if that year has a week of
/// that number whose Monday can be represented.
pub fn create_isoweek(year: i32, week: u32) -> (res: Option<IsoWeek>)
    ensures
        res is Some <==> iso_week_start(year as int, week as int) is Some,
        res matches Some(w) ==> w.year == year && w.week == week,
{
    match monday_of_week(year, week) {
        Some(_) => Some(IsoWeek { year, week }),
        None => None,
    }
}

} // verus!
