//! What the desktop front end shows: candle timeframes, per-market
//! connection status derived from lifecycle events, the channels watched
//! per symbol, command errors, and calendar dates for history requests.

use crate::error::{spec_message, MarketDataError};
use crate::models::Channel;
use crate::session::ConnectionEvent;
use crate::duration::as_nanos;
use crate::text::{decimal, push_decimal};
use std::time::Duration;
use vstd::prelude::*;

verus! {

/// Candle timeframe accepted by both the intraday and historical endpoints.
#[derive(Debug, Clone, Copy, PartialEq, Eq, Structural)]
pub enum Timeframe {
    /// One minute.
    Min1,
    /// One day.
    Day,
    /// One week.
    Week,
    /// One month.
    Month,
}

/// The API code of a timeframe.
pub open spec fn timeframe_code(t: Timeframe) -> Seq<char> {
    match t {
        Timeframe::Min1 => "1"@,
        Timeframe::Day => "D"@,
        Timeframe::Week => "W"@,
        Timeframe::Month => "M"@,
    }
}

impl Timeframe {
    /// The API code: `1`, `D`, `W` or `M`.
    pub fn as_api_str(self) -> (s: &'static str)
        ensures
            s@ == timeframe_code(self),
    {
        match self {
            Timeframe::Min1 => "1",
            Timeframe::Day => "D",
            Timeframe::Week => "W",
            Timeframe::Month => "M",
        }
    }

    /// Whether candles of this timeframe come from the intraday endpoint
    /// (only one-minute candles do).
    pub fn is_intraday(self) -> (r: bool)
        ensures
            r == (self == Timeframe::Min1),
    {
        match self {
            Timeframe::Min1 => true,
            _ => false,
        }
    }
}

/// Which connection (and which watchlist) an event belongs to.
#[derive(Debug, Clone, Copy, PartialEq, Eq, Structural)]
pub enum Market {
    /// The stock connection.
    Stock,
    /// The futures/options connection.
    Futopt,
}

/// Connection status as the front end shows it.
#[derive(Debug, Clone, PartialEq, Eq)]
pub enum ConnectionStateDto {
    /// Connecting.
    Connecting,
    /// Connected.
    Connected,
    /// Waiting before a reconnection attempt.
    Reconnecting { attempt: u32 },
    /// Disconnected, with the reason.
    Disconnected { reason: String },
    /// Failed, with a message for the user.
    Failed { message: String },
}

/// The status of one market's connection.
#[derive(Debug, Clone, PartialEq, Eq)]
pub struct MarketConnectionStateDto {
    /// The market.
    pub market: Market,
    /// Its status.
    pub state: ConnectionStateDto,
}

/// The message shown when reconnection gave up: a close that could not be
/// retried (no attempt made), or the number of attempts made.
pub open spec fn give_up_message(attempts: u32) -> Seq<char> {
    if attempts == 0 {
        "連線中斷（無法自動重連）"@
    } else {
        "重連失敗（"@ + decimal(attempts as nat) + " 次嘗試）"@
    }
}

/// The status an event moves the front end to; a heartbeat timeout is not
/// a status of its own (the reconnection that follows reports one).
pub open spec fn status_of(ev: ConnectionEvent, r: Option<ConnectionStateDto>) -> bool {
    match ev {
        ConnectionEvent::Connecting => r == Some(ConnectionStateDto::Connecting),
        ConnectionEvent::Connected => r == Some(ConnectionStateDto::Connected),
        ConnectionEvent::Authenticated => r == Some(ConnectionStateDto::Connected),
        ConnectionEvent::Disconnected { reason, .. } => r == Some(
            ConnectionStateDto::Disconnected { reason },
        ),
        ConnectionEvent::Reconnecting { attempt } => r == Some(
            ConnectionStateDto::Reconnecting { attempt },
        ),
        ConnectionEvent::ReconnectFailed { attempts } => r matches Some(
            ConnectionStateDto::Failed { message },
        ) && message@ == give_up_message(attempts),
        ConnectionEvent::Unauthenticated { message } => r == Some(
            ConnectionStateDto::Failed { message },
        ),
        ConnectionEvent::Error { message, .. } => r == Some(ConnectionStateDto::Failed { message }),
        ConnectionEvent::HeartbeatTimeout { .. } => r is None,
    }
}

/// The front-end status for a lifecycle event.
pub fn state_dto_for(ev: ConnectionEvent) -> (r: Option<ConnectionStateDto>)
    ensures
        status_of(ev, r),
{
    match ev {
        ConnectionEvent::Connecting => Some(ConnectionStateDto::Connecting),
        ConnectionEvent::Connected => Some(ConnectionStateDto::Connected),
        ConnectionEvent::Authenticated => Some(ConnectionStateDto::Connected),
        ConnectionEvent::Disconnected { reason, .. } => Some(
            ConnectionStateDto::Disconnected { reason },
        ),
        ConnectionEvent::Reconnecting { attempt } => Some(
            ConnectionStateDto::Reconnecting { attempt },
        ),
        ConnectionEvent::ReconnectFailed { attempts } => {
            let message = if attempts == 0 {
                String::from_str("連線中斷（無法自動重連）")
            } else {
                let mut m = String::from_str("重連失敗（");
                push_decimal(&mut m, attempts as u128);
                m.append(" 次嘗試）");
                m
            };
            Some(ConnectionStateDto::Failed { message })
        },
        ConnectionEvent::Unauthenticated { message } => Some(ConnectionStateDto::Failed { message }),
        ConnectionEvent::Error { message, .. } => Some(ConnectionStateDto::Failed { message }),
        ConnectionEvent::HeartbeatTimeout { .. } => None,
    }
}

/// The channels watched for a symbol: index symbols (`IX...`) only have
/// the indices channel; others have aggregates, trades, candles and books.
pub open spec fn watched_channels(symbol: Seq<char>) -> Seq<Channel> {
    if symbol.len() >= 2 && symbol[0] == 'I' && symbol[1] == 'X' {
        seq![Channel::Indices]
    } else {
        seq![Channel::Aggregates, Channel::Trades, Channel::Candles, Channel::Books]
    }
}

/// The channels to subscribe for a symbol.
pub fn channels_for(symbol: &str) -> (r: Vec<Channel>)
    ensures
        r@ == watched_channels(symbol@),
{
    let n = symbol.unicode_len();
    if n >= 2 && symbol.get_char(0) == 'I' && symbol.get_char(1) == 'X' {
        let r = vec![Channel::Indices];
        proof {
            assert(r@ =~= seq![Channel::Indices]);
        }
        r
    } else {
        let r = vec![Channel::Aggregates, Channel::Trades, Channel::Candles, Channel::Books];
        proof {
            assert(r@ =~= seq![Channel::Aggregates, Channel::Trades, Channel::Candles, Channel::Books]);
        }
        r
    }
}

/// Errors of the desktop commands.
#[derive(Debug, Clone, PartialEq, Eq)]
pub enum AppError {
    /// The market-data client failed, with its message.
    Sdk(String),
    /// No connection has been made.
    NotConnected,
    /// No API key has been configured.
    MissingApiKey,
    /// Anything else.
    Other(String),
}

/// The text of a command error.
pub open spec fn app_error_text(e: AppError) -> Seq<char> {
    match e {
        AppError::Sdk(m) => "SDK error: "@ + m@,
        AppError::NotConnected => "not connected — call connect first"@,
        AppError::MissingApiKey => "API key not configured"@,
        AppError::Other(m) => "internal: "@ + m@,
    }
}

impl AppError {
    /// Wraps a client error, keeping its text.
    pub fn from_sdk(e: &MarketDataError) -> (r: AppError)
        ensures
            r matches AppError::Sdk(m) && m@ == spec_message(*e),
    {
        AppError::Sdk(e.message())
    }

    /// The text shown to the user.
    pub fn message(&self) -> (s: String)
        ensures
            s@ == app_error_text(*self),
    {
        match self {
            AppError::Sdk(m) => crate::text::join2("SDK error: ", m.as_str()),
            AppError::NotConnected => String::from_str("not connected — call connect first"),
            AppError::MissingApiKey => String::from_str("API key not configured"),
            AppError::Other(m) => crate::text::join2("internal: ", m.as_str()),
        }
    }
}

/// Whether `y` is a leap year of the proleptic Gregorian calendar.
pub open spec fn is_leap_year(y: int) -> bool {
    y % 4 == 0 && (y % 100 != 0 || y % 400 == 0)
}

/// The number of days of month `m` (1 to 12) of year `y`.
pub open spec fn month_length(y: int, m: int) -> int {
    if m == 2 {
        if is_leap_year(y) {
            29
        } else {
            28
        }
    } else if m == 4 || m == 6 || m == 9 || m == 11 {
        30
    } else {
        31
    }
}

/// The number of days from 1970-01-01 to the date `y-m-d` (negative
/// before it), counting years from March so that leap days fall last.
pub open spec fn days_from_civil(y: int, m: int, d: int) -> int {
    let yy = if m <= 2 {
        y - 1
    } else {
        y
    };
    let era = yy / 400;
    let yoe = yy - era * 400;
    let mp = if m > 2 {
        m - 3
    } else {
        m + 9
    };
    let doy = (153 * mp + 2) / 5 + d - 1;
    let doe = yoe * 365 + yoe / 4 - yoe / 100 + doy;
    era * 146097 + doe - 719468
}

/// The calendar date `(year, month, day)` of day number `n` (days from
/// 1970-01-01): the 400-year era, the year of the era counted from March,
/// the day of that year, and from it the month and day.
pub open spec fn civil_from_days(n: int) -> (int, int, int) {
    let z = n + 719468;
    let era = z / 146097;
    let doe = z - era * 146097;
    let yoe = (doe - doe / 1460 + doe / 36524 - doe / 146096) / 365;
    let doy = doe - (365 * yoe + yoe / 4 - yoe / 100);
    let mp = (5 * doy + 2) / 153;
    let d = doy - (153 * mp + 2) / 5 + 1;
    let m = if mp < 10 {
        mp + 3
    } else {
        mp - 9
    };
    let y = yoe + era * 400 + if m <= 2 {
        1int
    } else {
        0int
    };
    (y, m, d)
}

/// The decimal text of `n`, left-padded with zeros to `width` characters.
pub open spec fn zero_padded(n: nat, width: nat) -> Seq<char> {
    let digits = decimal(n);
    if digits.len() >= width {
        digits
    } else {
        Seq::new((width - digits.len()) as nat, |i: int| '0') + digits
    }
}

/// The text of `v` padded with zeros to `width` characters, a minus sign
/// counting toward the width.
pub open spec fn padded(v: int, width: nat) -> Seq<char> {
    if v < 0 {
        seq!['-'] + zero_padded((-v) as nat, if width > 0 {
            (width - 1) as nat
        } else {
            0
        })
    } else {
        zero_padded(v as nat, width)
    }
}

/// `YYYY-MM-DD`.
pub open spec fn date_text(date: (int, int, int)) -> Seq<char> {
    padded(date.0, 4) + seq!['-'] + padded(date.1, 2) + seq!['-'] + padded(date.2, 2)
}

fn floor_div(a: i64, b: i64) -> (q: i64)
    requires
        b > 0,
    ensures
        q == a / b,
{
    proof {
        lemma_floor_div_in_range(a as int, b as int);
    }
    match a.checked_div_euclid(b) {
        Some(q) => q,
        None => 0,
    }
}

proof fn lemma_floor_div_in_range(a: int, b: int)
    requires
        b > 0,
        i64::MIN <= a <= i64::MAX,
    ensures
        i64::MIN <= a / b <= i64::MAX,
        a >= 0 ==> 0 <= a / b <= a,
        a < 0 ==> a <= a / b < 0,
{
    if a >= 0 {
        vstd::arithmetic::div_mod::lemma_div_pos_is_pos(a, b);
        vstd::arithmetic::div_mod::lemma_div_is_ordered_by_denominator(a, 1, b);
    } else {
        vstd::arithmetic::div_mod::lemma_fundamental_div_mod(a, b);
        assert(a / b < 0 && a / b >= a) by (nonlinear_arith)
            requires
                a == b * (a / b) + a % b,
                0 <= a % b < b,
                a < 0,
                b > 0,
        ;
    }
}

fn push_zero_padded(out: &mut String, n: u64, width: usize)
    ensures
        final(out)@ == old(out)@ + zero_padded(n as nat, width as nat),
{
    let digits = crate::text::decimal_string(n as u128);
    let len = digits.unicode_len();
    if len < width {
        let mut k: usize = 0;
        let ghost start = out@;
        while k < width - len
            invariant
                k <= width - len,
                len == digits@.len(),
                len < width,
                out@ == start + Seq::new(k as nat, |i: int| '0'),
            decreases width - len - k,
        {
            crate::text::push_char(out, '0');
            proof {
                assert(Seq::new((k + 1) as nat, |i: int| '0') =~= Seq::new(k as nat, |i: int| '0').push('0'));
            }
            k = k + 1;
        }
        out.append(digits.as_str());
        proof {
            assert(out@ =~= old(out)@ + zero_padded(n as nat, width as nat));
        }
    } else {
        out.append(digits.as_str());
    }
}

fn push_padded(out: &mut String, v: i64, width: usize)
    requires
        width > 0,
    ensures
        final(out)@ == old(out)@ + padded(v as int, width as nat),
{
    if v < 0 {
        crate::text::push_char(out, '-');
        let magnitude: u64 = if v == i64::MIN {
            9_223_372_036_854_775_808
        } else {
            (-v) as u64
        };
        push_zero_padded(out, magnitude, width - 1);
        proof {
            assert(final(out)@ =~= old(out)@ + padded(v as int, width as nat));
        }
    } else {
        push_zero_padded(out, v as u64, width);
    }
}

/// The date `days` before the day of `now_secs` (seconds since the Unix
/// epoch, UTC), as `YYYY-MM-DD`.
pub fn date_days_before(now_secs: i64, days: i64) -> (s: String)
    requires
        day_arithmetic_fits(now_secs, days),
    ensures
        s@ == date_text(civil_from_days(now_secs / 86400 - days)),
{
    let day = floor_div(now_secs, 86400);
    let day_number = day - days;
    let z = day_number + 719468;
    let era = floor_div(z, 146097);
    let doe = z - era * 146097;
    proof {
        vstd::arithmetic::div_mod::lemma_fundamental_div_mod(z as int, 146097);
    }
    let yoe = floor_div(doe - floor_div(doe, 1460) + floor_div(doe, 36524) - floor_div(doe, 146096), 365);
    let doy = doe - (365 * yoe + floor_div(yoe, 4) - floor_div(yoe, 100));
    let mp = floor_div(5 * doy + 2, 153);
    let d = doy - floor_div(153 * mp + 2, 5) + 1;
    let m = if mp < 10 {
        mp + 3
    } else {
        mp - 9
    };
    let y = yoe + era * 400 + if m <= 2 {
        1
    } else {
        0
    };
    let mut s = String::new();
    push_padded(&mut s, y, 4);
    crate::text::push_char(&mut s, '-');
    push_padded(&mut s, m, 2);
    crate::text::push_char(&mut s, '-');
    push_padded(&mut s, d, 2);
    s
}

proof fn lemma_year_of_era(doe: int)
    requires
        0 <= doe <= 146096,
    ensures
        0 <= (doe - doe / 1460 + doe / 36524 - doe / 146096) / 365 <= 399,
{
}

#[verifier::rlimit(50)]
proof fn lemma_day_of_year(doe: int, yoe: int)
    requires
        0 <= doe <= 146096,
        yoe == (doe - doe / 1460 + doe / 36524 - doe / 146096) / 365,
        0 <= yoe <= 399,
    ensures
        0 <= doe - (365 * yoe + yoe / 4 - yoe / 100) <= 365,
        doe - (365 * yoe + yoe / 4 - yoe / 100) == 365 ==> (yoe + 1) % 4 == 0 && ((yoe + 1) % 100
            != 0 || yoe == 399),
{
    let a = doe / 1460;
    let b = doe / 36524;
    let c = doe / 146096;
    assert(1460 * a <= doe < 1460 * a + 1460);
    assert(36524 * b <= doe < 36524 * b + 36524);
    let k = yoe / 4;
    let h = yoe / 100;
    assert(4 * k <= yoe < 4 * k + 4);
    assert(100 * h <= yoe < 100 * h + 100);
    assert(365 * yoe <= doe - a + b - c < 365 * yoe + 365);
}

/// The pieces of [`civil_from_days`] stay in their ranges.
proof fn lemma_civil_parts(n: int)
    ensures
        ({
            let z = n + 719468;
            let era = z / 146097;
            let doe = z - era * 146097;
            let yoe = (doe - doe / 1460 + doe / 36524 - doe / 146096) / 365;
            let doy = doe - (365 * yoe + yoe / 4 - yoe / 100);
            let mp = (5 * doy + 2) / 153;
            &&& 0 <= doe <= 146096
            &&& 0 <= yoe <= 399
            &&& 0 <= doy <= 365
            &&& (doy == 365 ==> (yoe + 1) % 4 == 0 && ((yoe + 1) % 100 != 0 || yoe == 399))
            &&& 0 <= mp <= 11
            &&& 153 * mp <= 5 * doy + 2 < 153 * mp + 153
        }),
{
    let z = n + 719468;
    let era = z / 146097;
    let doe = z - era * 146097;
    vstd::arithmetic::div_mod::lemma_fundamental_div_mod(z, 146097);
    assert(0 <= doe <= 146096);
    lemma_year_of_era(doe);
    let yoe = (doe - doe / 1460 + doe / 36524 - doe / 146096) / 365;
    lemma_day_of_year(doe, yoe);
    let doy = doe - (365 * yoe + yoe / 4 - yoe / 100);
    let mp = (5 * doy + 2) / 153;
    assert(153 * mp <= 5 * doy + 2 < 153 * mp + 153);
}

/// Converting a day number to a date and back gives the day number.
pub proof fn law_civil_round_trip(n: int)
    ensures
        days_from_civil(civil_from_days(n).0, civil_from_days(n).1, civil_from_days(n).2) == n,
{
    lemma_civil_parts(n);
    let z = n + 719468;
    let era = z / 146097;
    let doe = z - era * 146097;
    let yoe = (doe - doe / 1460 + doe / 36524 - doe / 146096) / 365;
    let doy = doe - (365 * yoe + yoe / 4 - yoe / 100);
    let mp = (5 * doy + 2) / 153;
    let (y, m, d) = civil_from_days(n);
    let yy = if m <= 2 {
        y - 1
    } else {
        y
    };
    assert(yy == yoe + era * 400);
    assert(yy / 400 == era) by {
        assert(400 * era <= yy < 400 * era + 400);
    }
    let mp2 = if m > 2 {
        m - 3
    } else {
        m + 9
    };
    assert(mp2 == mp);
}

/// The date of any day number is a real calendar date: the month is 1 to
/// 12 and the day is within the month's length (29 February only in leap
/// years).
#[verifier::rlimit(30)]
pub proof fn law_civil_date_is_valid(n: int)
    ensures
        1 <= civil_from_days(n).1 <= 12,
        1 <= civil_from_days(n).2 <= month_length(civil_from_days(n).0, civil_from_days(n).1),
{
    lemma_civil_parts(n);
    let z = n + 719468;
    let era = z / 146097;
    let doe = z - era * 146097;
    let yoe = (doe - doe / 1460 + doe / 36524 - doe / 146096) / 365;
    let doy = doe - (365 * yoe + yoe / 4 - yoe / 100);
    let mp = (5 * doy + 2) / 153;
    let start = (153 * mp + 2) / 5;
    assert(5 * start <= 153 * mp + 2 < 5 * start + 5);
    let (y, m, d) = civil_from_days(n);
    if mp == 11 {
        assert(y == yoe + era * 400 + 1);
        if doy == 365 {
            assert(y % 4 == (yoe + 1) % 4) by {
                assert(y == (yoe + 1) + 4 * (era * 100));
                vstd::arithmetic::div_mod::lemma_mod_add_multiples_vanish(yoe + 1, 4);
                vstd::arithmetic::div_mod::lemma_mod_multiples_vanish(era * 100, yoe + 1, 4);
            }
            if yoe == 399 {
                assert(y % 400 == 0) by {
                    assert(y == 400 * (era + 1));
                    vstd::arithmetic::div_mod::lemma_mod_multiples_basic(era + 1, 400);
                }
                assert(y % 100 == 0 || y % 100 != 0);
            } else {
                assert(y % 100 == (yoe + 1) % 100) by {
                    assert(y == (yoe + 1) + 100 * (era * 4));
                    vstd::arithmetic::div_mod::lemma_mod_multiples_vanish(era * 4, yoe + 1, 100);
                }
            }
            assert(is_leap_year(y));
        }
    }
}

/// `SystemTime::elapsed` on the Unix epoch: the time since the epoch by the
/// system clock, `None` when the clock reads earlier. A clock reading
/// promises nothing, so nothing is stated of it.
#[verifier::external_body]
fn since_unix_epoch() -> (d: Option<Duration>) {
    std::time::UNIX_EPOCH.elapsed().ok()
}

/// Whether the day arithmetic of [`date_days_before`] stays within `i64`.
pub open spec fn day_arithmetic_fits(now_secs: i64, days: i64) -> bool {
    &&& i64::MIN <= now_secs / 86400 - days
    &&& now_secs / 86400 - days + 719468 <= i64::MAX
    &&& (now_secs / 86400 - days + 719468) / 146097 * 146097 >= i64::MIN
}

fn i128_floor_div(a: i128, b: i128) -> (q: i128)
    requires
        b > 0,
        -(1i128 << 100) <= a <= (1i128 << 100),
    ensures
        q == a / b,
{
    proof {
        lemma_floor_div_in_range_wide(a as int, b as int);
    }
    match a.checked_div_euclid(b) {
        Some(q) => q,
        None => 0,
    }
}

proof fn lemma_floor_div_in_range_wide(a: int, b: int)
    requires
        b > 0,
        -(1i128 << 100) <= a <= (1i128 << 100),
    ensures
        i128::MIN <= a / b <= i128::MAX,
{
    assert((1i128 << 100) == 0x10000000000000000000000000i128) by (bit_vector);
    vstd::arithmetic::div_mod::lemma_fundamental_div_mod(a, b);
    if a >= 0 {
        vstd::arithmetic::div_mod::lemma_div_pos_is_pos(a, b);
        vstd::arithmetic::div_mod::lemma_div_is_ordered_by_denominator(a, 1, b);
    } else {
        assert(a / b < 0 && a / b >= a) by (nonlinear_arith)
            requires
                a == b * (a / b) + a % b,
                0 <= a % b < b,
                a < 0,
                b > 0,
        ;
    }
}

/// Whether [`date_days_before`] can run on these values, checked in
/// wider arithmetic.
pub fn day_arithmetic_checked(now_secs: i64, days: i64) -> (r: bool)
    ensures
        r == day_arithmetic_fits(now_secs, days),
{
    let day = floor_div(now_secs, 86400) as i128;
    let x = day - days as i128;
    if x < i64::MIN as i128 || x + 719468 > i64::MAX as i128 {
        return false;
    }
    let z = x + 719468;
    proof {
        assert(-(1i128 << 100) <= z <= (1i128 << 100)) by (bit_vector)
            requires
                i64::MIN as i128 <= z <= i64::MAX as i128,
        ;
    }
    let era = i128_floor_div(z, 146097);
    proof {
        lemma_floor_div_in_range(z as int, 146097);
    }
    era * 146097 >= i64::MIN as i128
}

/// The date `days` before today by the system clock (a clock before the
/// epoch counts as the epoch), as `YYYY-MM-DD`; `None` when the day
/// arithmetic would leave `i64`, which cannot happen for `days` within
/// half the `i64` range.
pub fn date_n_days_ago(days: i64) -> (r: Option<String>)
    ensures
        i64::MIN / 2 <= days <= i64::MAX / 2 ==> r is Some,
        r matches Some(s) ==> exists|now: i64|
            #![trigger civil_from_days(now / 86400 - days)]
            day_arithmetic_fits(now, days) && s@ == date_text(civil_from_days(now / 86400 - days)),
{
    let now_secs: i64 = match since_unix_epoch() {
        Some(d) => {
            let secs = as_nanos(&d) / 1_000_000_000;
            proof {
                assert(secs <= u64::MAX);
            }
            #[verifier::truncate]
            ((secs as u64) as i64)
        },
        None => 0,
    };
    proof {
        lemma_floor_div_in_range(now_secs as int, 86400);
    }
    if !day_arithmetic_checked(now_secs, days) {
        return None;
    }
    let s = date_days_before(now_secs, days);
    proof {
        assert(day_arithmetic_fits(now_secs, days));
        assert(s@ == date_text(civil_from_days(now_secs / 86400 - days)));
    }
    Some(s)
}

/// How each kind of event is shown: only a close shows as disconnected,
/// with its reason; a credential rejection, an error and abandoned
/// reconnection show as failures, and a rejection or an error shows its
/// own message unchanged; a heartbeat timeout alone changes nothing.
pub proof fn law_status_kinds(ev: ConnectionEvent, r: Option<ConnectionStateDto>)
    requires
        status_of(ev, r),
    ensures
        (r matches Some(ConnectionStateDto::Disconnected { .. })) <==> ev is Disconnected,
        ev matches ConnectionEvent::Disconnected { reason, .. } ==> (r matches Some(
            ConnectionStateDto::Disconnected { reason: shown },
        ) && shown == reason),
        (r matches Some(ConnectionStateDto::Failed { .. })) <==> (ev is Unauthenticated || ev is Error
            || ev is ReconnectFailed),
        ev matches ConnectionEvent::Unauthenticated { message } ==> (r matches Some(
            ConnectionStateDto::Failed { message: shown },
        ) && shown == message),
        ev matches ConnectionEvent::Error { message, .. } ==> (r matches Some(
            ConnectionStateDto::Failed { message: shown },
        ) && shown == message),
        r is None <==> ev is HeartbeatTimeout,
{
}

} // verus!
