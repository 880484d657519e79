//! Endpoint constants and the composition of a caller-supplied base URL
//! with the streaming version segment.

use crate::error::MarketDataError;
use crate::reconnection::is_config_error;
use vstd::prelude::*;
use vstd::string::*;

verus! {

/// Production WebSocket root (host and path prefix, no version).
pub const WS_BASE_ROOT: &'static str = "wss://api.fugle.tw/marketdata";
/// Production stock streaming endpoint.
pub const STOCK_WS: &'static str = "wss://api.fugle.tw/marketdata/v1.0/stock/streaming";
/// Production futures/options streaming endpoint (version 1.1).
pub const FUTOPT_WS: &'static str = "wss://api.fugle.tw/marketdata/v1.1/futopt/streaming";

/// `s` without its trailing slashes.
pub open spec fn trim_trailing_slashes(s: Seq<char>) -> Seq<char>
    decreases s.len(),
{
    if s.len() > 0 && s.last() == '/' {
        trim_trailing_slashes(s.drop_last())
    } else {
        s
    }
}

/// The position just after the last `/` of `s`, or 0 when there is none.
pub open spec fn last_segment_start(s: Seq<char>) -> nat
    decreases s.len(),
{
    if s.len() == 0 {
        0
    } else if s.last() == '/' {
        s.len()
    } else {
        last_segment_start(s.drop_last())
    }
}

/// The text after the last `/` of `s`.
pub open spec fn last_segment(s: Seq<char>) -> Seq<char> {
    s.subrange(last_segment_start(s) as int, s.len() as int)
}

/// An ASCII decimal digit.
pub open spec fn is_digit(c: char) -> bool {
    '0' <= c && c <= '9'
}

/// A version path segment: `v`, then digits and dots that start and end
/// with a digit (`v1`, `v1.0`, `v2.10`).
pub open spec fn is_version_segment(seg: Seq<char>) -> bool {
    &&& seg.len() >= 2
    &&& seg[0] == 'v'
    &&& is_digit(seg[1])
    &&& is_digit(seg.last())
    &&& forall|i: int| 1 <= i < seg.len() ==> is_digit(#[trigger] seg[i]) || seg[i] == '.'
}

/// The text rejecting a base URL that already carries a version segment.
pub open spec fn versioned_base_message(base: Seq<char>, hint: Seq<char>) -> Seq<char> {
    let t = trim_trailing_slashes(base);
    let seg = last_segment(t);
    let prefix = trim_trailing_slashes(t.subrange(0, last_segment_start(t) as int));
    "base_url '"@ + base + "' already ends in the version segment '/"@ + seg
        + "'; pass the prefix without it, '"@ + prefix + "'. "@ + hint
}

/// What composing `base` with `version` gives: the base without trailing
/// slashes followed by `/version`, or the rejection when the base already
/// ends in a version segment.
pub open spec fn spec_with_version(base: Seq<char>, version: Seq<char>) -> Option<Seq<char>> {
    let t = trim_trailing_slashes(base);
    if is_version_segment(last_segment(t)) {
        None
    } else {
        Some(t + seq!['/'] + version)
    }
}

fn trimmed_len(s: &str) -> (n: usize)
    ensures
        n <= s@.len(),
        s@.take(n as int) == trim_trailing_slashes(s@),
{
    let mut n = s.unicode_len();
    proof {
        assert(s@.take(n as int) =~= s@);
    }
    while n > 0 && s.get_char(n - 1) == '/'
        invariant
            n <= s@.len(),
            trim_trailing_slashes(s@.take(n as int)) == trim_trailing_slashes(s@),
        decreases n,
    {
        proof {
            assert(s@.take(n as int).drop_last() =~= s@.take(n - 1));
        }
        n = n - 1;
    }
    n
}

/// `s` without its trailing slashes.
pub fn trim_end_slashes(s: &str) -> (r: &str)
    ensures
        r@ == trim_trailing_slashes(s@),
{
    let n = trimmed_len(s);
    let r = s.substring_char(0, n);
    assert(r@ =~= s@.take(n as int));
    r
}

fn segment_start(s: &str) -> (k: usize)
    ensures
        k == last_segment_start(s@),
        k <= s@.len(),
{
    let mut n = s.unicode_len();
    proof {
        assert(s@.take(n as int) =~= s@);
    }
    while n > 0 && s.get_char(n - 1) != '/'
        invariant
            n <= s@.len(),
            last_segment_start(s@.take(n as int)) == last_segment_start(s@),
        decreases n,
    {
        proof {
            assert(s@.take(n as int).drop_last() =~= s@.take(n - 1));
        }
        n = n - 1;
    }
    proof {
        if n > 0 {
            assert(s@.take(n as int).last() == '/');
        }
    }
    n
}

fn is_digit_char(c: char) -> (r: bool)
    ensures
        r == is_digit(c),
{
    '0' <= c && c <= '9'
}

fn version_segment(seg: &str) -> (r: bool)
    ensures
        r == is_version_segment(seg@),
{
    let n = seg.unicode_len();
    if n < 2 || seg.get_char(0) != 'v' || !is_digit_char(seg.get_char(1)) || !is_digit_char(
        seg.get_char(n - 1),
    ) {
        return false;
    }
    let mut i: usize = 1;
    while i < n
        invariant
            1 <= i <= n,
            n == seg@.len(),
            forall|j: int| 1 <= j < i ==> is_digit(#[trigger] seg@[j]) || seg@[j] == '.',
        decreases n - i,
    {
        let c = seg.get_char(i);
        if !is_digit_char(c) && c != '.' {
            return false;
        }
        i = i + 1;
    }
    true
}

/// Composes `base` with the version segment: trailing slashes are dropped
/// and `/version` appended. A base whose last path segment is already a
/// version is rejected with a configuration error that names the segment,
/// the prefix to use instead, and `hint`.
pub fn with_version(base: &str, version: &str, hint: &str) -> (r: Result<String, MarketDataError>)
    ensures
        match spec_with_version(base@, version@) {
            Some(url) => r is Ok && r->Ok_0@ == url,
            None => r is Err && is_config_error(r->Err_0, versioned_base_message(base@, hint@)),
        },
{
    let t = trim_end_slashes(base);
    let start = segment_start(t);
    let seg = t.substring_char(start, t.unicode_len());
    if version_segment(seg) {
        let prefix = trim_end_slashes(t.substring_char(0, start));
        let mut msg = String::from_str("base_url '");
        msg.append(base);
        msg.append("' already ends in the version segment '/");
        msg.append(seg);
        msg.append("'; pass the prefix without it, '");
        msg.append(prefix);
        msg.append("'. ");
        msg.append(hint);
        return Err(MarketDataError::ConfigError(msg));
    }
    let mut url = String::from_str(t);
    url.append("/");
    url.append(version);
    proof {
        reveal_strlit("/");
        assert(url@ =~= trim_trailing_slashes(base@) + seq!['/'] + version@);
    }
    Ok(url)
}

} // verus!
