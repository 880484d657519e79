//! Typed subscriptions for the stock and futures/options products: the
//! local bookkeeping keys and the wire body of the subscribe request.

use crate::json::{
    field_text, member, member_text, object, object_text, quoted, str_value, string_array,
    string_array_text, true_text, true_value, json_text, JsonMember, JsonValue,
};
use crate::models::{
    build_sub_key, channel_name, futopt_channel_name, sub_key, Channel, FutOptChannel,
    IntoSymbolSpec, SymbolSpec, SymbolSpecView,
};
use vstd::prelude::*;

verus! {

/// The member naming the symbol(s): `symbol` for one, `symbols` for a batch.
pub open spec fn symbols_field_text(s: SymbolSpecView) -> Seq<char> {
    match s {
        SymbolSpecView::Single(x) => field_text("symbol"@, quoted(x)),
        SymbolSpecView::Many(v) => field_text("symbols"@, string_array_text(v)),
    }
}

/// The subscribe body: channel, symbol(s), and the session flag member
/// `flag_key: true` only when the flag is set.
pub open spec fn subscribe_data_text(
    channel: Seq<char>,
    s: SymbolSpecView,
    flag_key: Seq<char>,
    flag: bool,
) -> Seq<char> {
    let base = seq![field_text("channel"@, quoted(channel)), symbols_field_text(s)];
    object_text(
        if flag {
            base.push(field_text(flag_key, true_text()))
        } else {
            base
        },
    )
}

/// The full subscribe envelope around a body.
pub open spec fn subscribe_request_text(data_text: Seq<char>) -> Seq<char> {
    object_text(seq![field_text("event"@, quoted("subscribe"@)), field_text("data"@, data_text)])
}

/// The keys of a subscription: one per symbol, in order.
pub open spec fn keys_of(channel: Seq<char>, s: SymbolSpecView, after_hours: bool, odd_lot: bool) -> Seq<
    Seq<char>,
> {
    s.list().map_values(|sym: Seq<char>| sub_key(channel, sym, after_hours, odd_lot))
}

fn symbols_member(symbols: &SymbolSpec) -> (m: JsonMember)
    ensures
        member_text(m) == symbols_field_text(symbols@),
{
    match symbols {
        SymbolSpec::Single(s) => member("symbol", str_value(s.as_str())),
        SymbolSpec::Many(v) => member("symbols", string_array(v)),
    }
}

fn subscribe_data(channel: &str, symbols: &SymbolSpec, flag_key: &str, flag: bool) -> (d: JsonValue)
    ensures
        json_text(d) == subscribe_data_text(channel@, symbols@, flag_key@, flag),
{
    let m1 = member("channel", str_value(channel));
    let m2 = symbols_member(symbols);
    let mut members: Vec<JsonMember> = Vec::new();
    members.push(m1);
    members.push(m2);
    if flag {
        let m3 = member(flag_key, true_value());
        members.push(m3);
        proof {
            assert(members@.map_values(|m: JsonMember| member_text(m)) =~= seq![
                member_text(m1),
                member_text(m2),
                member_text(m3),
            ]);
        }
    } else {
        proof {
            assert(members@.map_values(|m: JsonMember| member_text(m)) =~= seq![
                member_text(m1),
                member_text(m2),
            ]);
        }
    }
    proof {
        let base = seq![field_text("channel"@, quoted(channel@)), symbols_field_text(symbols@)];
        assert(member_text(m1) == field_text("channel"@, quoted(channel@)));
        if flag {
            assert(base.push(field_text(flag_key@, true_text())) =~= seq![
                member_text(m1),
                member_text(m2),
                field_text(flag_key@, true_text()),
            ]);
        } else {
            assert(base =~= seq![member_text(m1), member_text(m2)]);
        }
    }
    object(members)
}

fn subscribe_request(data: JsonValue) -> (r: JsonValue)
    ensures
        json_text(r) == subscribe_request_text(json_text(data)),
{
    let m1 = member("event", str_value("subscribe"));
    let m2 = member("data", data);
    let mut members: Vec<JsonMember> = Vec::new();
    members.push(m1);
    members.push(m2);
    proof {
        assert(members@.map_values(|m: JsonMember| member_text(m)) =~= seq![
            member_text(m1),
            member_text(m2),
        ]);
    }
    object(members)
}

fn keys_for(channel: &str, symbols: &SymbolSpec, after_hours: bool, odd_lot: bool) -> (keys: Vec<
    String,
>)
    ensures
        crate::models::strings_view(keys@) == keys_of(channel@, symbols@, after_hours, odd_lot),
{
    match symbols {
        SymbolSpec::Single(s) => {
            let mut keys: Vec<String> = Vec::new();
            keys.push(build_sub_key(channel, s.as_str(), after_hours, odd_lot));
            proof {
                assert(crate::models::strings_view(keys@) =~= keys_of(
                    channel@,
                    symbols@,
                    after_hours,
                    odd_lot,
                ));
            }
            keys
        },
        SymbolSpec::Many(v) => {
            let ghost sv = crate::models::strings_view(v@);
            let mut keys: Vec<String> = Vec::new();
            let mut i: usize = 0;
            while i < v.len()
                invariant
                    i <= v.len(),
                    sv == crate::models::strings_view(v@),
                    crate::models::strings_view(keys@) == sv.take(i as int).map_values(
                        |sym: Seq<char>| sub_key(channel@, sym, after_hours, odd_lot),
                    ),
                decreases v.len() - i,
            {
                let k = build_sub_key(channel, v[i].as_str(), after_hours, odd_lot);
                let ghost before = keys@;
                keys.push(k);
                proof {
                    assert(keys@ =~= before.push(k));
                    assert(sv.take(i + 1) =~= sv.take(i as int).push(sv[i as int]));
                    assert(crate::models::strings_view(keys@) =~= crate::models::strings_view(
                        before,
                    ).push(k@));
                    assert(sv.take(i + 1).map_values(
                        |sym: Seq<char>| sub_key(channel@, sym, after_hours, odd_lot),
                    ) =~= sv.take(i as int).map_values(
                        |sym: Seq<char>| sub_key(channel@, sym, after_hours, odd_lot),
                    ).push(sub_key(channel@, sv[i as int], after_hours, odd_lot)));
                }
                i = i + 1;
            }
            proof {
                assert(sv.take(v.len() as int) =~= sv);
            }
            keys
        },
    }
}

/// A stock subscription: channel, one or many symbols, and the odd-lot
/// session flag.
#[derive(Debug, Clone)]
pub struct StockSubscription {
    /// Channel to subscribe to.
    pub channel: Channel,
    /// One or many symbols.
    pub symbols: SymbolSpec,
    /// Odd-lot session (true) or regular board lots (false, the default).
    pub intraday_odd_lot: bool,
}

impl StockSubscription {
    /// A regular-session subscription to `channel` for `symbols`.
    pub fn new<S: IntoSymbolSpec>(channel: Channel, symbols: S) -> (r: Self)
        ensures
            r.channel == channel,
            r.symbols@ == symbols.symbols_view(),
            !r.intraday_odd_lot,
    {
        StockSubscription { channel, symbols: symbols.into_symbol_spec(), intraday_odd_lot: false }
    }

    /// Sets the odd-lot flag (for every symbol of a batch).
    pub fn with_odd_lot(self, odd_lot: bool) -> (r: Self)
        ensures
            r.channel == self.channel,
            r.symbols == self.symbols,
            r.intraday_odd_lot == odd_lot,
    {
        let mut r = self;
        r.intraday_odd_lot = odd_lot;
        r
    }

    /// One key per symbol, in order: `channel:symbol`, with `:oddlot` when
    /// the odd-lot flag is set.
    pub fn keys(&self) -> (keys: Vec<String>)
        ensures
            crate::models::strings_view(keys@) == keys_of(
                channel_name(self.channel),
                self.symbols@,
                false,
                self.intraday_odd_lot,
            ),
    {
        keys_for(self.channel.as_str(), &self.symbols, false, self.intraday_odd_lot)
    }

    /// The subscribe body: `{"channel":..,"symbol":..}` or
    /// `{"channel":..,"symbols":[..]}`, plus `"intradayOddLot":true` when set.
    pub fn to_subscribe_data(&self) -> (d: JsonValue)
        ensures
            json_text(d) == subscribe_data_text(
                channel_name(self.channel),
                self.symbols@,
                "intradayOddLot"@,
                self.intraday_odd_lot,
            ),
    {
        subscribe_data(self.channel.as_str(), &self.symbols, "intradayOddLot", self.intraday_odd_lot)
    }

    /// The full request `{"event":"subscribe","data":<body>}`.
    pub fn to_subscribe_request(&self) -> (r: JsonValue)
        ensures
            json_text(r) == subscribe_request_text(
                subscribe_data_text(
                    channel_name(self.channel),
                    self.symbols@,
                    "intradayOddLot"@,
                    self.intraday_odd_lot,
                ),
            ),
    {
        subscribe_request(self.to_subscribe_data())
    }
}

/// A futures/options subscription: channel, one or many contracts, and the
/// after-hours session flag.
#[derive(Debug, Clone)]
pub struct FutOptSubscription {
    /// Channel to subscribe to.
    pub channel: FutOptChannel,
    /// One or many contract symbols.
    pub symbols: SymbolSpec,
    /// After-hours session (true) or the regular session (false, the default).
    pub after_hours: bool,
}

impl FutOptSubscription {
    /// A regular-session subscription to `channel` for `symbols`.
    pub fn new<S: IntoSymbolSpec>(channel: FutOptChannel, symbols: S) -> (r: Self)
        ensures
            r.channel == channel,
            r.symbols@ == symbols.symbols_view(),
            !r.after_hours,
    {
        FutOptSubscription { channel, symbols: symbols.into_symbol_spec(), after_hours: false }
    }

    /// Sets the after-hours flag (for every symbol of a batch).
    pub fn with_after_hours(self, after_hours: bool) -> (r: Self)
        ensures
            r.channel == self.channel,
            r.symbols == self.symbols,
            r.after_hours == after_hours,
    {
        let mut r = self;
        r.after_hours = after_hours;
        r
    }

    /// One key per symbol, in order: `channel:symbol`, with `:afterhours`
    /// when the after-hours flag is set.
    pub fn keys(&self) -> (keys: Vec<String>)
        ensures
            crate::models::strings_view(keys@) == keys_of(
                futopt_channel_name(self.channel),
                self.symbols@,
                self.after_hours,
                false,
            ),
    {
        keys_for(self.channel.as_str(), &self.symbols, self.after_hours, false)
    }

    /// The subscribe body, with `"afterHours":true` when set.
    pub fn to_subscribe_data(&self) -> (d: JsonValue)
        ensures
            json_text(d) == subscribe_data_text(
                futopt_channel_name(self.channel),
                self.symbols@,
                "afterHours"@,
                self.after_hours,
            ),
    {
        subscribe_data(self.channel.as_str(), &self.symbols, "afterHours", self.after_hours)
    }

    /// The full request `{"event":"subscribe","data":<body>}`.
    pub fn to_subscribe_request(&self) -> (r: JsonValue)
        ensures
            json_text(r) == subscribe_request_text(
                subscribe_data_text(
                    futopt_channel_name(self.channel),
                    self.symbols@,
                    "afterHours"@,
                    self.after_hours,
                ),
            ),
    {
        subscribe_request(self.to_subscribe_data())
    }
}

} // verus!
