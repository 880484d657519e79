//! Time spans as whole nanoseconds, the model through which the
//! configuration and backoff logic reason about `std::time::Duration`.

use crate::text::{decimal, digit_char, digit_char_exec, push_char, push_decimal};
use std::time::Duration;
use vstd::prelude::*;

verus! {

/// The length of a `Duration` in nanoseconds (`Duration::as_nanos`).
pub uninterp spec fn duration_nanos(d: Duration) -> nat;

/// Nanoseconds in one millisecond.
pub const NANOS_PER_MILLI: u128 = 1_000_000;

/// The longest representable span: `u64::MAX` seconds plus 999_999_999 ns.
pub open spec fn max_duration_nanos() -> nat {
    18_446_744_073_709_551_615 * 1_000_000_000 + 999_999_999
}

/// `Duration::clone`: `Duration` is `Copy`, so a clone is the same value.
pub assume_specification[ <Duration as Clone>::clone ](d: &Duration) -> (r: Duration)
    ensures
        r == *d,
;

/// The length of `d` in milliseconds, rounded down (`Duration::as_millis`).
pub open spec fn duration_millis(d: Duration) -> nat {
    duration_nanos(d) / 1_000_000
}

/// `d` spans `nanos` nanoseconds, and is the only `Duration` that does.
/// std documents a `Duration` as whole seconds plus a nanosecond part below
/// one second, compared field by field, so its length determines it.
pub open spec fn spans_exactly(d: Duration, nanos: nat) -> bool {
    &&& duration_nanos(d) == nanos
    &&& forall|e: Duration| #[trigger] duration_nanos(e) == nanos ==> e == d
}

/// `Duration::from_millis`: std documents that the result spans exactly
/// `ms` milliseconds; the contract states that span in nanoseconds, and
/// that no other `Duration` has that length.
#[verifier::external_body]
pub(crate) fn from_millis(ms: u64) -> (d: Duration)
    ensures
        spans_exactly(d, ms as nat * 1_000_000),
{
    Duration::from_millis(ms)
}

/// `Duration::from_secs`: std documents that the result spans exactly
/// `secs` seconds; the contract states that span in nanoseconds, and that
/// no other `Duration` has that length.
#[verifier::external_body]
pub(crate) fn from_secs(secs: u64) -> (d: Duration)
    ensures
        spans_exactly(d, secs as nat * 1_000_000_000),
{
    Duration::from_secs(secs)
}

/// `Duration::as_nanos`: the whole span in nanoseconds. std documents the
/// representation as `u64` seconds plus fewer than 10^9 nanoseconds, which
/// bounds the result.
#[verifier::external_body]
pub(crate) fn as_nanos(d: &Duration) -> (n: u128)
    ensures
        n == duration_nanos(*d),
        n <= max_duration_nanos(),
{
    d.as_nanos()
}

/// The span of `d` in whole milliseconds.
pub fn as_millis(d: &Duration) -> (ms: u128)
    ensures
        ms == duration_millis(*d),
        ms <= 18_446_744_073_709_551_615_999,
{
    let n = as_nanos(d);
    n / NANOS_PER_MILLI
}

/// Whether `a` is strictly shorter than `b`.
pub fn shorter(a: &Duration, b: &Duration) -> (r: bool)
    ensures
        r == (duration_nanos(*a) < duration_nanos(*b)),
{
    as_nanos(a) < as_nanos(b)
}

/// Whether `u` is a power of ten (1, 10, 100, ...).
pub open spec fn power_of_ten(u: nat) -> bool
    decreases u,
{
    if u == 1 {
        true
    } else if u < 10 || u % 10 != 0 {
        false
    } else {
        power_of_ten(u / 10)
    }
}

/// The digits printed after the point for a remainder `frac` counted in
/// tenths of `unit`: most significant first, stopping as soon as what is
/// left is zero, so the rendering has no trailing zeros.
pub open spec fn fraction_digits(frac: nat, unit: nat) -> Seq<char>
    decreases unit,
{
    if frac == 0 || unit == 0 {
        seq![]
    } else {
        seq![digit_char(frac / unit)] + fraction_digits(frac % unit, unit / 10)
    }
}

/// `whole`, then a point and the digits of `frac` when `frac` is not zero,
/// then `unit_name`.
pub open spec fn with_fraction(whole: nat, frac: nat, unit: nat, unit_name: Seq<char>)
    -> Seq<char> {
    decimal(whole) + (if frac == 0 {
        seq![]
    } else {
        seq!['.'] + fraction_digits(frac, unit)
    }) + unit_name
}

/// The text of `format!("{:?}", d)`: whole seconds with their fraction and
/// `s` when the span is a second or more, else milliseconds (`ms`), else
/// microseconds (`\u{b5}s`), else nanoseconds (`ns`), as std's `Debug` for
/// `Duration` prints them without a precision.
pub open spec fn duration_debug(d: Duration) -> Seq<char> {
    let n = duration_nanos(d);
    let secs = n / 1_000_000_000;
    let sub = n % 1_000_000_000;
    if secs > 0 {
        with_fraction(secs, sub, 100_000_000, seq!['s'])
    } else if sub >= 1_000_000 {
        with_fraction(sub / 1_000_000, sub % 1_000_000, 100_000, seq!['m', 's'])
    } else if sub >= 1_000 {
        with_fraction(sub / 1_000, sub % 1_000, 100, seq!['\u{b5}', 's'])
    } else {
        with_fraction(sub, 0, 1, seq!['n', 's'])
    }
}

/// Appends the digits of `fraction_digits(frac, unit)`.
fn push_fraction_digits(out: &mut String, frac: u128, unit: u128)
    requires
        power_of_ten(unit as nat),
        frac < unit * 10,
    ensures
        final(out)@ == old(out)@ + fraction_digits(frac as nat, unit as nat),
    decreases unit,
{
    if frac == 0 {
        return;
    }
    let d = frac / unit;
    assert(d < 10) by (nonlinear_arith)
        requires
            d == frac / unit,
            frac < unit * 10,
            unit > 0,
    ;
    push_char(out, digit_char_exec(d as u32));
    let rest = frac % unit;
    if unit == 1 {
        assert(rest == 0);
        assert(fraction_digits(rest as nat, 0) == Seq::<char>::empty());
        assert(fraction_digits(frac as nat, unit as nat) =~= seq![digit_char(d as nat)]);
        return;
    }
    let next = unit / 10;
    assert(rest < next * 10) by (nonlinear_arith)
        requires
            rest == frac % unit,
            unit > 0,
            unit % 10 == 0,
            next == unit / 10,
    ;
    let ghost before = out@;
    push_fraction_digits(out, rest, next);
    proof {
        assert(fraction_digits(frac as nat, unit as nat) =~= seq![digit_char(d as nat)]
            + fraction_digits(rest as nat, next as nat));
    }
}

/// Appends `with_fraction(whole, frac, unit, unit_name)`.
fn push_with_fraction(out: &mut String, whole: u128, frac: u128, unit: u128, unit_name: &str)
    requires
        power_of_ten(unit as nat),
        frac < unit * 10,
    ensures
        final(out)@ == old(out)@ + with_fraction(
            whole as nat,
            frac as nat,
            unit as nat,
            unit_name@,
        ),
{
    push_decimal(out, whole);
    if frac != 0 {
        push_char(out, '.');
        push_fraction_digits(out, frac, unit);
    }
    out.append(unit_name);
    proof {
        if frac == 0 {
            assert(final(out)@ =~= old(out)@ + with_fraction(
                whole as nat,
                frac as nat,
                unit as nat,
                unit_name@,
            ));
        } else {
            assert(final(out)@ =~= old(out)@ + with_fraction(
                whole as nat,
                frac as nat,
                unit as nat,
                unit_name@,
            ));
        }
    }
}

/// Appends `duration_debug(*d)`, the text `format!("{:?}", d)` gives.
pub fn push_duration_debug(out: &mut String, d: &Duration)
    ensures
        final(out)@ == old(out)@ + duration_debug(*d),
{
    let n = as_nanos(d);
    let secs = n / 1_000_000_000;
    let sub = n % 1_000_000_000;
    proof {
        reveal_with_fuel(power_of_ten, 10);
        reveal_strlit("s");
        reveal_strlit("ms");
        reveal_strlit("\u{b5}s");
        reveal_strlit("ns");
    }
    if secs > 0 {
        push_with_fraction(out, secs, sub, 100_000_000, "s");
    } else if sub >= 1_000_000 {
        push_with_fraction(out, sub / 1_000_000, sub % 1_000_000, 100_000, "ms");
    } else if sub >= 1_000 {
        push_with_fraction(out, sub / 1_000, sub % 1_000, 100, "\u{b5}s");
    } else {
        push_with_fraction(out, sub, 0, 1, "ns");
    }
}

} // verus!
