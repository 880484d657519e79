//! Request-side data model: channels, symbol sets, credentials and the
//! per-symbol subscription rows kept for bookkeeping and replay.

use crate::text::join2;
use vstd::prelude::*;

verus! {

/// Stock streaming channels.
#[derive(Debug, Clone, Copy, PartialEq, Eq, Structural)]
pub enum Channel {
    /// Trade ticks.
    Trades,
    /// One-minute candles.
    Candles,
    /// Order-book depth.
    Books,
    /// Quote-like aggregates.
    Aggregates,
    /// Index values.
    Indices,
}

/// Futures/options streaming channels (there is no indices channel).
#[derive(Debug, Clone, Copy, PartialEq, Eq, Structural)]
pub enum FutOptChannel {
    /// Trade ticks.
    Trades,
    /// One-minute candles.
    Candles,
    /// Order-book depth.
    Books,
    /// Quote-like aggregates.
    Aggregates,
}

/// The wire name of a stock channel.
pub open spec fn channel_name(c: Channel) -> Seq<char> {
    match c {
        Channel::Trades => "trades"@,
        Channel::Candles => "candles"@,
        Channel::Books => "books"@,
        Channel::Aggregates => "aggregates"@,
        Channel::Indices => "indices"@,
    }
}

/// The wire name of a futures/options channel.
pub open spec fn futopt_channel_name(c: FutOptChannel) -> Seq<char> {
    match c {
        FutOptChannel::Trades => "trades"@,
        FutOptChannel::Candles => "candles"@,
        FutOptChannel::Books => "books"@,
        FutOptChannel::Aggregates => "aggregates"@,
    }
}

impl Channel {
    /// The channel's wire name.
    pub fn as_str(&self) -> (s: &'static str)
        ensures
            s@ == channel_name(*self),
    {
        match self {
            Channel::Trades => "trades",
            Channel::Candles => "candles",
            Channel::Books => "books",
            Channel::Aggregates => "aggregates",
            Channel::Indices => "indices",
        }
    }
}

impl FutOptChannel {
    /// The channel's wire name.
    pub fn as_str(&self) -> (s: &'static str)
        ensures
            s@ == futopt_channel_name(*self),
    {
        match self {
            FutOptChannel::Trades => "trades",
            FutOptChannel::Candles => "candles",
            FutOptChannel::Books => "books",
            FutOptChannel::Aggregates => "aggregates",
        }
    }
}

/// One symbol, or a batch of symbols sent in a single frame.
#[derive(Debug, Clone, PartialEq, Eq)]
pub enum SymbolSpec {
    /// A single symbol.
    Single(String),
    /// Several symbols.
    Many(Vec<String>),
}

/// The futures/options name for the same notion.
pub type Symbols = SymbolSpec;

/// The abstract value of a [`SymbolSpec`].
pub enum SymbolSpecView {
    /// A single symbol.
    Single(Seq<char>),
    /// Several symbols.
    Many(Seq<Seq<char>>),
}

/// The characters of each string in a sequence.
pub open spec fn strings_view(v: Seq<String>) -> Seq<Seq<char>> {
    v.map_values(|s: String| s@)
}

/// The characters of each string slice in a sequence.
pub open spec fn strs_view(v: Seq<&str>) -> Seq<Seq<char>> {
    v.map_values(|s: &str| s@)
}

impl View for SymbolSpec {
    type V = SymbolSpecView;

    open spec fn view(&self) -> SymbolSpecView {
        match self {
            SymbolSpec::Single(s) => SymbolSpecView::Single(s@),
            SymbolSpec::Many(v) => SymbolSpecView::Many(strings_view(v@)),
        }
    }
}

impl SymbolSpecView {
    /// The symbols in order: one for `Single`, all of them for `Many`.
    pub open spec fn list(self) -> Seq<Seq<char>> {
        match self {
            SymbolSpecView::Single(s) => seq![s],
            SymbolSpecView::Many(v) => v,
        }
    }
}

/// Copies a sequence of strings.
pub fn copy_strings(v: &Vec<String>) -> (r: Vec<String>)
    ensures
        strings_view(r@) == strings_view(v@),
{
    let mut r: Vec<String> = Vec::new();
    let mut i: usize = 0;
    while i < v.len()
        invariant
            i <= v.len(),
            strings_view(r@) == strings_view(v@).take(i as int),
        decreases v.len() - i,
    {
        r.push(v[i].clone());
        proof {
            assert(strings_view(v@).take(i + 1) == strings_view(v@).take(i as int).push(
                v@[i as int]@,
            ));
        }
        i = i + 1;
    }
    proof {
        assert(strings_view(v@).take(v.len() as int) == strings_view(v@));
    }
    r
}

/// Owned copies of a sequence of string slices.
pub fn own_strs(v: &[&str]) -> (r: Vec<String>)
    ensures
        strings_view(r@) == strs_view(v@),
{
    let mut r: Vec<String> = Vec::new();
    let mut i: usize = 0;
    while i < v.len()
        invariant
            i <= v.len(),
            strings_view(r@) == strs_view(v@).take(i as int),
        decreases v.len() - i,
    {
        r.push(String::from_str(v[i]));
        proof {
            assert(strs_view(v@).take(i + 1) == strs_view(v@).take(i as int).push(v@[i as int]@));
        }
        i = i + 1;
    }
    proof {
        assert(strs_view(v@).take(v.len() as int) == strs_view(v@));
    }
    r
}

impl SymbolSpec {
    /// A copy with the same symbols.
    pub fn duplicate(&self) -> (r: Self)
        ensures
            r@ == self@,
    {
        match self {
            SymbolSpec::Single(s) => SymbolSpec::Single(s.clone()),
            SymbolSpec::Many(v) => SymbolSpec::Many(copy_strings(v)),
        }
    }
}

/// Values that name one or several symbols.
pub trait IntoSymbolSpec: Sized {
    /// The symbols this value names.
    spec fn symbols_view(&self) -> SymbolSpecView;

    /// Converts into a [`SymbolSpec`].
    fn into_symbol_spec(self) -> (r: SymbolSpec)
        ensures
            r@ == self.symbols_view(),
    ;
}

impl IntoSymbolSpec for SymbolSpec {
    open spec fn symbols_view(&self) -> SymbolSpecView {
        self@
    }

    fn into_symbol_spec(self) -> (r: SymbolSpec) {
        self
    }
}

impl<'a> IntoSymbolSpec for &'a str {
    open spec fn symbols_view(&self) -> SymbolSpecView {
        SymbolSpecView::Single(self@)
    }

    fn into_symbol_spec(self) -> (r: SymbolSpec) {
        SymbolSpec::Single(String::from_str(self))
    }
}

impl IntoSymbolSpec for String {
    open spec fn symbols_view(&self) -> SymbolSpecView {
        SymbolSpecView::Single(self@)
    }

    fn into_symbol_spec(self) -> (r: SymbolSpec) {
        SymbolSpec::Single(self)
    }
}

impl<'a> IntoSymbolSpec for &'a String {
    open spec fn symbols_view(&self) -> SymbolSpecView {
        SymbolSpecView::Single(self@)
    }

    fn into_symbol_spec(self) -> (r: SymbolSpec) {
        SymbolSpec::Single(self.clone())
    }
}

impl IntoSymbolSpec for Vec<String> {
    open spec fn symbols_view(&self) -> SymbolSpecView {
        SymbolSpecView::Many(strings_view(self@))
    }

    fn into_symbol_spec(self) -> (r: SymbolSpec) {
        SymbolSpec::Many(self)
    }
}

impl<'a> IntoSymbolSpec for Vec<&'a str> {
    open spec fn symbols_view(&self) -> SymbolSpecView {
        SymbolSpecView::Many(strs_view(self@))
    }

    fn into_symbol_spec(self) -> (r: SymbolSpec) {
        SymbolSpec::Many(own_strs(self.as_slice()))
    }
}

impl<'a, 'b> IntoSymbolSpec for &'b [&'a str] {
    open spec fn symbols_view(&self) -> SymbolSpecView {
        SymbolSpecView::Many(strs_view(self@))
    }

    fn into_symbol_spec(self) -> (r: SymbolSpec) {
        SymbolSpec::Many(own_strs(self))
    }
}

impl<'a, const N: usize> IntoSymbolSpec for [&'a str; N] {
    open spec fn symbols_view(&self) -> SymbolSpecView {
        SymbolSpecView::Many(strs_view(self@))
    }

    fn into_symbol_spec(self) -> (r: SymbolSpec) {
        SymbolSpec::Many(own_strs(self.as_slice()))
    }
}

/// Credentials sent in the authentication frame.
#[derive(Debug, Clone, PartialEq, Eq)]
pub enum AuthRequest {
    /// An API key.
    ApiKey(String),
    /// A bearer token.
    BearerToken(String),
    /// An SDK token.
    SdkToken(String),
}

impl AuthRequest {
    /// Authenticates with an API key.
    pub fn with_api_key(key: &str) -> (a: Self)
        ensures
            a matches AuthRequest::ApiKey(k) && k@ == key@,
    {
        AuthRequest::ApiKey(String::from_str(key))
    }

    /// Authenticates with a bearer token.
    pub fn with_bearer_token(token: &str) -> (a: Self)
        ensures
            a matches AuthRequest::BearerToken(t) && t@ == token@,
    {
        AuthRequest::BearerToken(String::from_str(token))
    }

    /// Authenticates with an SDK token.
    pub fn with_sdk_token(token: &str) -> (a: Self)
        ensures
            a matches AuthRequest::SdkToken(t) && t@ == token@,
    {
        AuthRequest::SdkToken(String::from_str(token))
    }

    /// A copy of the credentials.
    pub fn duplicate(&self) -> (a: Self)
        ensures
            a == *self,
    {
        match self {
            AuthRequest::ApiKey(k) => AuthRequest::ApiKey(k.clone()),
            AuthRequest::BearerToken(t) => AuthRequest::BearerToken(t.clone()),
            AuthRequest::SdkToken(t) => AuthRequest::SdkToken(t.clone()),
        }
    }
}

/// The local bookkeeping key of a subscription: `channel:symbol`, with
/// `:afterhours` for after-hours sessions or else `:oddlot` for odd-lot
/// sessions.
pub open spec fn sub_key(channel: Seq<char>, symbol: Seq<char>, after_hours: bool, odd_lot: bool) -> Seq<
    char,
> {
    let base = channel + ":"@ + symbol;
    if after_hours {
        base + ":afterhours"@
    } else if odd_lot {
        base + ":oddlot"@
    } else {
        base
    }
}

/// Builds [`sub_key`].
pub fn build_sub_key(channel: &str, symbol: &str, after_hours: bool, odd_lot: bool) -> (k: String)
    ensures
        k@ == sub_key(channel@, symbol@, after_hours, odd_lot),
{
    let mut k = join2(channel, ":");
    k.append(symbol);
    if after_hours {
        k.append(":afterhours");
    } else if odd_lot {
        k.append(":oddlot");
    }
    k
}

/// One subscription as sent on the wire and as stored for replay.
#[derive(Debug, Clone, PartialEq, Eq, Default)]
pub struct SubscribeRequest {
    /// Channel wire name.
    pub channel: String,
    /// The symbol of a single-symbol request.
    pub symbol: Option<String>,
    /// The symbols of a batch request.
    pub symbols: Option<Vec<String>>,
    /// Odd-lot session flag (stock).
    pub intraday_odd_lot: Option<bool>,
    /// After-hours session flag (futures/options).
    pub after_hours: Option<bool>,
}

/// The abstract value of a [`SubscribeRequest`].
pub struct SubscribeRequestView {
    /// Channel wire name.
    pub channel: Seq<char>,
    /// The symbol of a single-symbol request.
    pub symbol: Option<Seq<char>>,
    /// The symbols of a batch request.
    pub symbols: Option<Seq<Seq<char>>>,
    /// Odd-lot session flag.
    pub intraday_odd_lot: Option<bool>,
    /// After-hours session flag.
    pub after_hours: Option<bool>,
}

impl View for SubscribeRequest {
    type V = SubscribeRequestView;

    open spec fn view(&self) -> SubscribeRequestView {
        SubscribeRequestView {
            channel: self.channel@,
            symbol: match self.symbol {
                Some(s) => Some(s@),
                None => None,
            },
            symbols: match self.symbols {
                Some(v) => Some(strings_view(v@)),
                None => None,
            },
            intraday_odd_lot: self.intraday_odd_lot,
            after_hours: self.after_hours,
        }
    }
}

impl SubscribeRequestView {
    /// The bookkeeping key; a request without a single symbol keys on the
    /// empty symbol.
    pub open spec fn key(self) -> Seq<char> {
        sub_key(
            self.channel,
            match self.symbol {
                Some(s) => s,
                None => Seq::empty(),
            },
            self.after_hours == Some(true),
            self.intraday_odd_lot == Some(true),
        )
    }

    /// The single-symbol row for `symbol`, keeping channel and flags.
    pub open spec fn row(self, symbol: Seq<char>) -> SubscribeRequestView {
        SubscribeRequestView {
            channel: self.channel,
            symbol: Some(symbol),
            symbols: None,
            intraday_odd_lot: self.intraday_odd_lot,
            after_hours: self.after_hours,
        }
    }

    /// One row per symbol of a batch request; a request without a batch is
    /// its own single row.
    pub open spec fn expand(self) -> Seq<SubscribeRequestView> {
        match self.symbols {
            Some(v) => v.map_values(|s: Seq<char>| self.row(s)),
            None => seq![self],
        }
    }
}

fn copy_opt_string(o: &Option<String>) -> (r: Option<String>)
    ensures
        r == *o,
{
    match o {
        Some(s) => Some(s.clone()),
        None => None,
    }
}

/// The abstract value of each request in a sequence.
pub open spec fn requests_view(v: Seq<SubscribeRequest>) -> Seq<SubscribeRequestView> {
    v.map_values(|r: SubscribeRequest| r@)
}

impl SubscribeRequest {
    /// A single-symbol stock request on `channel`.
    pub fn new(channel: Channel, symbol: &str) -> (r: Self)
        ensures
            r@ == (SubscribeRequestView {
                channel: channel_name(channel),
                symbol: Some(symbol@),
                symbols: None,
                intraday_odd_lot: None,
                after_hours: None,
            }),
    {
        SubscribeRequest {
            channel: String::from_str(channel.as_str()),
            symbol: Some(String::from_str(symbol)),
            symbols: None,
            intraday_odd_lot: None,
            after_hours: None,
        }
    }

    /// A copy with the same content.
    pub fn duplicate(&self) -> (r: Self)
        ensures
            r@ == self@,
    {
        SubscribeRequest {
            channel: self.channel.clone(),
            symbol: copy_opt_string(&self.symbol),
            symbols: match &self.symbols {
                Some(v) => Some(copy_strings(v)),
                None => None,
            },
            intraday_odd_lot: self.intraday_odd_lot,
            after_hours: self.after_hours,
        }
    }

    /// The bookkeeping key of this request.
    pub fn key(&self) -> (k: String)
        ensures
            k@ == self@.key(),
    {
        let after_hours = match self.after_hours {
            Some(b) => b,
            None => false,
        };
        let odd_lot = match self.intraday_odd_lot {
            Some(b) => b,
            None => false,
        };
        match &self.symbol {
            Some(s) => build_sub_key(self.channel.as_str(), s.as_str(), after_hours, odd_lot),
            None => {
                proof {
                    reveal_strlit("");
                }
                build_sub_key(self.channel.as_str(), "", after_hours, odd_lot)
            },
        }
    }

    /// Splits a batch request into one single-symbol row per symbol, in
    /// order; a request without a batch is returned as its only row.
    pub fn expand(self) -> (rows: Vec<SubscribeRequest>)
        ensures
            requests_view(rows@) == self@.expand(),
    {
        match &self.symbols {
            None => {
                let mut rows: Vec<SubscribeRequest> = Vec::new();
                rows.push(self);
                proof {
                    assert(requests_view(rows@) == seq![self@]);
                }
                rows
            },
            Some(v) => {
                let ghost sv = self@;
                let mut rows: Vec<SubscribeRequest> = Vec::new();
                let mut i: usize = 0;
                while i < v.len()
                    invariant
                        i <= v.len(),
                        sv == self@,
                        self.symbols == Some(*v),
                        requests_view(rows@) == strings_view(v@).take(i as int).map_values(
                            |s: Seq<char>| sv.row(s),
                        ),
                    decreases v.len() - i,
                {
                    let row = SubscribeRequest {
                        channel: self.channel.clone(),
                        symbol: Some(v[i].clone()),
                        symbols: None,
                        intraday_odd_lot: self.intraday_odd_lot,
                        after_hours: self.after_hours,
                    };
                    proof {
                        assert(row@ == sv.row(v@[i as int]@));
                    }
                    let ghost before = rows@;
                    rows.push(row);
                    proof {
                        assert(strings_view(v@).take(i + 1) =~= strings_view(v@).take(i as int).push(
                            v@[i as int]@,
                        ));
                        assert(requests_view(rows@) =~= requests_view(before).push(
                            sv.row(v@[i as int]@),
                        ));
                        assert(requests_view(rows@) =~= strings_view(v@).take(i + 1).map_values(
                            |s: Seq<char>| sv.row(s),
                        ));
                    }
                    i = i + 1;
                }
                proof {
                    assert(strings_view(v@).take(v.len() as int) == strings_view(v@));
                }
                rows
            },
        }
    }
}

/// Expanding a batch request gives one row per symbol, in order, and each
/// row is a single-symbol request: row `i` names the `i`-th symbol alone,
/// carries no batch, and keeps the request's channel and session flags. A
/// request without a batch is its own only row.
pub proof fn law_expand_gives_single_symbol_rows(w: SubscribeRequestView)
    ensures
        w.symbols matches Some(v) ==> {
            &&& w.expand().len() == v.len()
            &&& forall|i: int|
                0 <= i < v.len() ==> {
                    &&& (#[trigger] w.expand()[i]).symbols is None
                    &&& w.expand()[i].symbol == Some(v[i])
                    &&& w.expand()[i].channel == w.channel
                    &&& w.expand()[i].intraday_odd_lot == w.intraday_odd_lot
                    &&& w.expand()[i].after_hours == w.after_hours
                }
        },
        w.symbols is None ==> w.expand() == seq![w],
{
}

} // verus!
