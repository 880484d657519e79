//! Streaming protocol versions, one enum per product so that a version one
//! product does not serve cannot be requested from it.

use vstd::prelude::*;

verus! {

/// Streaming versions served by the stock product.
#[derive(Debug, Clone, Copy, PartialEq, Eq, Structural)]
#[non_exhaustive]
pub enum StockVersion {
    /// `v1.0`, the only version stock streaming serves.
    V1_0,
}

/// Streaming versions served by the futures/options product. `V1_1` adds
/// trial-matching frames on `trades` and `books`.
#[derive(Debug, Clone, Copy, PartialEq, Eq, Structural)]
#[non_exhaustive]
pub enum FutOptVersion {
    /// `v1.0`, without trial-matching frames.
    V1_0,
    /// `v1.1`, with trial-matching frames; the default.
    V1_1,
}

/// The URL path segment of a stock version.
pub open spec fn stock_version_str(v: StockVersion) -> Seq<char> {
    match v {
        StockVersion::V1_0 => "v1.0"@,
    }
}

/// The URL path segment of a futures/options version.
pub open spec fn futopt_version_str(v: FutOptVersion) -> Seq<char> {
    match v {
        FutOptVersion::V1_0 => "v1.0"@,
        FutOptVersion::V1_1 => "v1.1"@,
    }
}

impl StockVersion {
    /// The URL path segment for this version.
    pub fn as_str(&self) -> (s: &'static str)
        ensures
            s@ == stock_version_str(*self),
    {
        match self {
            StockVersion::V1_0 => "v1.0",
        }
    }
}

impl FutOptVersion {
    /// The URL path segment for this version.
    pub fn as_str(&self) -> (s: &'static str)
        ensures
            s@ == futopt_version_str(*self),
    {
        match self {
            FutOptVersion::V1_0 => "v1.0",
            FutOptVersion::V1_1 => "v1.1",
        }
    }
}

impl Default for StockVersion {
    fn default() -> (v: Self)
        ensures
            v == StockVersion::V1_0,
    {
        StockVersion::V1_0
    }
}

impl Default for FutOptVersion {
    fn default() -> (v: Self)
        ensures
            v == FutOptVersion::V1_1,
    {
        FutOptVersion::V1_1
    }
}

} // verus!
