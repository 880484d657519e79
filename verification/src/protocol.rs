//! The wire protocol: inbound messages, the auth handshake classification,
//! the outbound frames, and the bookkeeping of subscription acknowledgements.

use crate::channels::{FutOptSubscription, StockSubscription};
use crate::json::{
    field_text, json_text, member, member_text, object, object_text, quoted, spec_get_bool, spec_get_str, str_value, string_array, string_array_text,
    JsonMember, JsonValue,
};
use crate::models::{
    build_sub_key, strings_view, sub_key, AuthRequest, SubscribeRequest, SubscribeRequestView,
    SymbolSpec,
};
use crate::subscription::SubscriptionManager;
use vstd::prelude::*;

verus! {

/// An inbound frame: its event name and optional payload and routing fields.
#[derive(Debug)]
pub struct WebSocketMessage {
    /// Event name (`authenticated`, `subscribed`, `data`, `error`, ...).
    pub event: String,
    /// Event payload.
    pub data: Option<JsonValue>,
    /// Channel name, when the frame carries one at top level.
    pub channel: Option<String>,
    /// Symbol, when the frame carries one at top level.
    pub symbol: Option<String>,
    /// Subscription id, when the frame carries one at top level.
    pub id: Option<String>,
}

/// The view of an optional string.
pub open spec fn opt_view(o: Option<String>) -> Option<Seq<char>> {
    match o {
        Some(s) => Some(s@),
        None => None,
    }
}

/// The `message` string of the payload, if there is one.
pub open spec fn spec_error_message(msg: WebSocketMessage) -> Option<Seq<char>> {
    spec_get_str(msg.data, "message"@)
}

impl WebSocketMessage {
    /// Whether the server accepted the credentials.
    pub fn is_authenticated(&self) -> (r: bool)
        ensures
            r == (self.event@ == "authenticated"@),
    {
        crate::text::str_eq(self.event.as_str(), "authenticated")
    }

    /// Whether this is an error frame.
    pub fn is_error(&self) -> (r: bool)
        ensures
            r == (self.event@ == "error"@),
    {
        crate::text::str_eq(self.event.as_str(), "error")
    }

    /// The `message` string of the payload, if any.
    pub fn error_message(&self) -> (r: Option<String>)
        ensures
            opt_view(r) == spec_error_message(*self),
    {
        match &self.data {
            Some(d) => match d.get("message") {
                Some(m) => match m.as_str() {
                    Some(s) => Some(String::from_str(s)),
                    None => None,
                },
                None => None,
            },
            None => None,
        }
    }
}

/// How a frame read during the auth handshake moves it on.
#[derive(Debug, PartialEq, Eq)]
pub enum AuthOutcome {
    /// The server accepted the credentials.
    Authenticated,
    /// The server rejected the credentials, with its message.
    Failed(String),
    /// Not an auth verdict; keep reading.
    Pending,
}

/// The outcome of an auth-phase frame: accepted on `authenticated`,
/// rejected on `error` (with the payload message, or `Unknown error`),
/// pending otherwise.
pub open spec fn auth_outcome_of(msg: WebSocketMessage, outcome: AuthOutcome) -> bool {
    if msg.event@ == "authenticated"@ {
        outcome == AuthOutcome::Authenticated
    } else if msg.event@ == "error"@ {
        outcome matches AuthOutcome::Failed(m) && m@ == (match spec_error_message(msg) {
            Some(t) => t,
            None => "Unknown error"@,
        })
    } else {
        outcome == AuthOutcome::Pending
    }
}

/// Classifies a frame received during the auth handshake.
pub fn classify_auth_response(msg: &WebSocketMessage) -> (r: AuthOutcome)
    ensures
        auth_outcome_of(*msg, r),
{
    if msg.is_authenticated() {
        AuthOutcome::Authenticated
    } else if msg.is_error() {
        match msg.error_message() {
            Some(m) => AuthOutcome::Failed(m),
            None => AuthOutcome::Failed(String::from_str("Unknown error")),
        }
    } else {
        AuthOutcome::Pending
    }
}

/// The name and value of the credential member of the auth frame.
pub open spec fn credential_field(auth: AuthRequest) -> (Seq<char>, Seq<char>) {
    match auth {
        AuthRequest::ApiKey(k) => ("apikey"@, k@),
        AuthRequest::BearerToken(t) => ("token"@, t@),
        AuthRequest::SdkToken(t) => ("sdkToken"@, t@),
    }
}

/// `{"event":<event>,"data":<data>}`.
pub open spec fn envelope_text(event: Seq<char>, data_text: Seq<char>) -> Seq<char> {
    object_text(seq![field_text("event"@, quoted(event)), field_text("data"@, data_text)])
}

/// The auth frame: `{"event":"auth","data":{"<credential>":"<value>"}}`.
pub open spec fn auth_frame_text(auth: AuthRequest) -> Seq<char> {
    let (k, v) = credential_field(auth);
    envelope_text("auth"@, object_text(seq![field_text(k, quoted(v))]))
}

fn push_member(ms: &mut Vec<JsonMember>, m: JsonMember)
    ensures
        final(ms)@.map_values(|x: JsonMember| member_text(x)) == old(ms)@.map_values(
            |x: JsonMember| member_text(x),
        ).push(member_text(m)),
{
    let ghost before = ms@;
    ms.push(m);
    proof {
        assert(ms@.map_values(|x: JsonMember| member_text(x)) =~= before.map_values(
            |x: JsonMember| member_text(x),
        ).push(member_text(m)));
    }
}

fn envelope(event: &str, data: JsonValue) -> (v: JsonValue)
    ensures
        json_text(v) == envelope_text(event@, json_text(data)),
{
    let mut ms: Vec<JsonMember> = Vec::new();
    push_member(&mut ms, member("event", str_value(event)));
    push_member(&mut ms, member("data", data));
    proof {
        assert(ms@.map_values(|x: JsonMember| member_text(x)) =~= seq![
            field_text("event"@, quoted(event@)),
            field_text("data"@, json_text(data)),
        ]);
    }
    object(ms)
}

fn single_member_object(key: &str, value: JsonValue) -> (v: JsonValue)
    ensures
        json_text(v) == object_text(seq![field_text(key@, json_text(value))]),
{
    let mut ms: Vec<JsonMember> = Vec::new();
    push_member(&mut ms, member(key, value));
    proof {
        assert(ms@.map_values(|x: JsonMember| member_text(x)) =~= seq![
            field_text(key@, json_text(value)),
        ]);
    }
    object(ms)
}

/// The auth frame for `auth`.
pub fn frame_auth(auth: &AuthRequest) -> (s: String)
    ensures
        s@ == auth_frame_text(*auth),
{
    let data = match auth {
        AuthRequest::ApiKey(k) => single_member_object("apikey", str_value(k.as_str())),
        AuthRequest::BearerToken(t) => single_member_object("token", str_value(t.as_str())),
        AuthRequest::SdkToken(t) => single_member_object("sdkToken", str_value(t.as_str())),
    };
    let frame = envelope("auth", data);
    crate::json::to_json_text(&frame)
}

/// The wire request of a subscription: the channel, `symbol` or `symbols`,
/// and the session flag only when it is set.
pub open spec fn wire_request(
    channel: Seq<char>,
    symbols: crate::models::SymbolSpecView,
    after_hours: bool,
    odd_lot: bool,
) -> SubscribeRequestView {
    SubscribeRequestView {
        channel,
        symbol: match symbols {
            crate::models::SymbolSpecView::Single(s) => Some(s),
            crate::models::SymbolSpecView::Many(_) => None,
        },
        symbols: match symbols {
            crate::models::SymbolSpecView::Single(_) => None,
            crate::models::SymbolSpecView::Many(v) => Some(v),
        },
        intraday_odd_lot: if odd_lot {
            Some(true)
        } else {
            None
        },
        after_hours: if after_hours {
            Some(true)
        } else {
            None
        },
    }
}

/// The member texts of a stored request: `channel`, then each of `symbol`,
/// `symbols`, `intradayOddLot`, `afterHours` that is set.
pub open spec fn request_parts(r: SubscribeRequestView) -> Seq<Seq<char>> {
    let p0 = seq![field_text("channel"@, quoted(r.channel))];
    let p1 = match r.symbol {
        Some(s) => p0.push(field_text("symbol"@, quoted(s))),
        None => p0,
    };
    let p2 = match r.symbols {
        Some(v) => p1.push(field_text("symbols"@, string_array_text(v))),
        None => p1,
    };
    let p3 = match r.intraday_odd_lot {
        Some(b) => p2.push(field_text("intradayOddLot"@, bool_text(b))),
        None => p2,
    };
    match r.after_hours {
        Some(b) => p3.push(field_text("afterHours"@, bool_text(b))),
        None => p3,
    }
}

/// `true` or `false`.
pub open spec fn bool_text(b: bool) -> Seq<char> {
    if b {
        seq!['t', 'r', 'u', 'e']
    } else {
        seq!['f', 'a', 'l', 's', 'e']
    }
}

/// The subscribe frame carrying a stored request.
pub open spec fn subscribe_frame_text(r: SubscribeRequestView) -> Seq<char> {
    envelope_text("subscribe"@, object_text(request_parts(r)))
}

/// Builds a subscribe frame for a stored request.
pub fn frame_subscribe_raw(req: &SubscribeRequest) -> (s: String)
    ensures
        s@ == subscribe_frame_text(req@),
{
    let mut ms: Vec<JsonMember> = Vec::new();
    push_member(&mut ms, member("channel", str_value(req.channel.as_str())));
    let ghost p0 = ms@.map_values(|x: JsonMember| member_text(x));
    match &req.symbol {
        Some(s) => push_member(&mut ms, member("symbol", str_value(s.as_str()))),
        None => {},
    }
    let ghost p1 = ms@.map_values(|x: JsonMember| member_text(x));
    match &req.symbols {
        Some(v) => push_member(&mut ms, member("symbols", string_array(v))),
        None => {},
    }
    let ghost p2 = ms@.map_values(|x: JsonMember| member_text(x));
    match req.intraday_odd_lot {
        Some(b) => push_member(&mut ms, member("intradayOddLot", JsonValue::Bool(b))),
        None => {},
    }
    let ghost p3 = ms@.map_values(|x: JsonMember| member_text(x));
    match req.after_hours {
        Some(b) => push_member(&mut ms, member("afterHours", JsonValue::Bool(b))),
        None => {},
    }
    proof {
        assert(p0 =~= seq![field_text("channel"@, quoted(req.channel@))]);
        assert(ms@.map_values(|x: JsonMember| member_text(x)) == request_parts(req@));
    }
    let data = object(ms);
    let frame = envelope("subscribe", data);
    crate::json::to_json_text(&frame)
}

fn wire_request_of(channel: &str, symbols: &SymbolSpec, after_hours: bool, odd_lot: bool) -> (r:
    SubscribeRequest)
    ensures
        r@ == wire_request(channel@, symbols@, after_hours, odd_lot),
{
    let (symbol, list) = match symbols {
        SymbolSpec::Single(s) => (Some(s.clone()), None),
        SymbolSpec::Many(v) => (None, Some(crate::models::copy_strings(v))),
    };
    SubscribeRequest {
        channel: String::from_str(channel),
        symbol,
        symbols: list,
        intraday_odd_lot: if odd_lot {
            Some(true)
        } else {
            None
        },
        after_hours: if after_hours {
            Some(true)
        } else {
            None
        },
    }
}

/// The subscribe frame of a stock subscription, and the rows to store: one
/// per symbol.
pub fn frame_subscribe(sub: &StockSubscription) -> (r: (String, Vec<SubscribeRequest>))
    ensures
        ({
            let w = wire_request(
                crate::models::channel_name(sub.channel),
                sub.symbols@,
                false,
                sub.intraday_odd_lot,
            );
            &&& r.0@ == subscribe_frame_text(w)
            &&& crate::models::requests_view(r.1@) == w.expand()
        }),
{
    let w = wire_request_of(sub.channel.as_str(), &sub.symbols, false, sub.intraday_odd_lot);
    let text = frame_subscribe_raw(&w);
    (text, w.expand())
}

/// The subscribe frame of a futures/options subscription, and the rows to
/// store: one per contract.
pub fn frame_subscribe_futopt(sub: &FutOptSubscription) -> (r: (String, Vec<SubscribeRequest>))
    ensures
        ({
            let w = wire_request(
                crate::models::futopt_channel_name(sub.channel),
                sub.symbols@,
                sub.after_hours,
                false,
            );
            &&& r.0@ == subscribe_frame_text(w)
            &&& crate::models::requests_view(r.1@) == w.expand()
        }),
{
    let w = wire_request_of(sub.channel.as_str(), &sub.symbols, sub.after_hours, false);
    let text = frame_subscribe_raw(&w);
    (text, w.expand())
}

/// The unsubscribe frame: `{"id":..}` for exactly one id, `{"ids":[..]}`
/// otherwise.
pub open spec fn unsubscribe_frame_text(ids: Seq<Seq<char>>) -> Seq<char> {
    envelope_text(
        "unsubscribe"@,
        if ids.len() == 1 {
            object_text(seq![field_text("id"@, quoted(ids[0]))])
        } else {
            object_text(seq![field_text("ids"@, string_array_text(ids))])
        },
    )
}

/// Builds the unsubscribe frame for server ids.
pub fn frame_unsubscribe(ids: &Vec<String>) -> (s: String)
    ensures
        s@ == unsubscribe_frame_text(strings_view(ids@)),
{
    let data = if ids.len() == 1 {
        single_member_object("id", str_value(ids[0].as_str()))
    } else {
        single_member_object("ids", string_array(ids))
    };
    let frame = envelope("unsubscribe", data);
    crate::json::to_json_text(&frame)
}

/// The key and server id an acknowledgement entry binds, when it carries
/// string `id`, `channel` and `symbol` members.
pub open spec fn entry_binding(e: JsonValue) -> Option<(Seq<char>, Seq<char>)> {
    match (spec_get_str(Some(e), "id"@), spec_get_str(Some(e), "channel"@), spec_get_str(Some(e), "symbol"@)) {
        (Some(id), Some(c), Some(s)) => Some(
            (
                sub_key(
                    c,
                    s,
                    spec_get_bool(e, "afterHours"@) == Some(true),
                    spec_get_bool(e, "intradayOddLot"@) == Some(true),
                ),
                id,
            ),
        ),
        _ => None,
    }
}

/// The id table after recording the bindings of `entries` in order.
pub open spec fn record_entries(ids: Map<Seq<char>, Seq<char>>, entries: Seq<JsonValue>) -> Map<
    Seq<char>,
    Seq<char>,
>
    decreases entries.len(),
{
    if entries.len() == 0 {
        ids
    } else {
        let before = record_entries(ids, entries.drop_last());
        match entry_binding(entries.last()) {
            Some((k, id)) => before.insert(k, id),
            None => before,
        }
    }
}

/// A string field of the payload object, falling back to the top-level one.
pub open spec fn field_or(data: Option<JsonValue>, key: Seq<char>, top: Option<String>) -> Option<
    Seq<char>,
> {
    match spec_get_str(data, key) {
        Some(s) => Some(s),
        None => opt_view(top),
    }
}

/// A boolean flag of the payload object; absent counts as false.
pub open spec fn flag_of(data: Option<JsonValue>, key: Seq<char>) -> bool {
    match data {
        Some(d) => spec_get_bool(d, key) == Some(true),
        None => false,
    }
}

/// The id table after an inbound frame: a `subscribed` acknowledgement
/// records the server id of each subscription it names, either as an array
/// of entries or as one subscription (payload fields first, top-level
/// fields as fallback). Other frames change nothing.
pub open spec fn ids_after_frame(ids: Map<Seq<char>, Seq<char>>, msg: WebSocketMessage) -> Map<
    Seq<char>,
    Seq<char>,
> {
    if msg.event@ != "subscribed"@ {
        ids
    } else {
        match msg.data {
            Some(JsonValue::Array(entries)) => record_entries(ids, entries@),
            _ => match (
                field_or(msg.data, "id"@, msg.id),
                field_or(msg.data, "channel"@, msg.channel),
                field_or(msg.data, "symbol"@, msg.symbol),
            ) {
                (Some(id), Some(c), Some(s)) => ids.insert(
                    sub_key(
                        c,
                        s,
                        flag_of(msg.data, "afterHours"@),
                        flag_of(msg.data, "intradayOddLot"@),
                    ),
                    id,
                ),
                _ => ids,
            },
        }
    }
}

fn str_field(v: &JsonValue, key: &str) -> (r: Option<String>)
    ensures
        opt_view(r) == spec_get_str(Some(*v), key@),
{
    match v.get(key) {
        Some(x) => match x.as_str() {
            Some(s) => Some(String::from_str(s)),
            None => None,
        },
        None => None,
    }
}

fn bool_flag(v: &JsonValue, key: &str) -> (r: bool)
    ensures
        r == (spec_get_bool(*v, key@) == Some(true)),
{
    match v.get(key) {
        Some(x) => match x.as_bool() {
            Some(b) => b,
            None => false,
        },
        None => false,
    }
}

fn payload_field(data: &Option<JsonValue>, key: &str, top: &Option<String>) -> (r: Option<String>)
    ensures
        opt_view(r) == field_or(*data, key@, *top),
{
    let from_data = match data {
        Some(d) => str_field(d, key),
        None => None,
    };
    match from_data {
        Some(s) => Some(s),
        None => match top {
            Some(t) => Some(t.clone()),
            None => None,
        },
    }
}

/// Records the server ids a `subscribed` acknowledgement assigns; any other
/// frame, and any entry missing its id, channel or symbol, is ignored.
pub fn handle_subscribed_event(subscriptions: &mut SubscriptionManager, msg: &WebSocketMessage)
    ensures
        final(subscriptions).rows() == old(subscriptions).rows(),
        final(subscriptions).ids() == ids_after_frame(old(subscriptions).ids(), *msg),
{
    if !crate::text::str_eq(msg.event.as_str(), "subscribed") {
        return;
    }
    match &msg.data {
        Some(JsonValue::Array(entries)) => {
            let mut i: usize = 0;
            while i < entries.len()
                invariant
                    i <= entries.len(),
                    subscriptions.rows() == old(subscriptions).rows(),
                    subscriptions.ids() == record_entries(
                        old(subscriptions).ids(),
                        entries@.take(i as int),
                    ),
                decreases entries.len() - i,
            {
                let e = &entries[i];
                proof {
                    assert(entries@.take(i + 1).drop_last() =~= entries@.take(i as int));
                    assert(entries@.take(i + 1).last() == entries@[i as int]);
                }
                let id = str_field(e, "id");
                let channel = str_field(e, "channel");
                let symbol = str_field(e, "symbol");
                match (id, channel, symbol) {
                    (Some(id), Some(c), Some(s)) => {
                        let ah = bool_flag(e, "afterHours");
                        let ol = bool_flag(e, "intradayOddLot");
                        let key = build_sub_key(c.as_str(), s.as_str(), ah, ol);
                        subscriptions.record_server_id(key, id);
                    },
                    _ => {},
                }
                i = i + 1;
            }
            proof {
                assert(entries@.take(entries.len() as int) =~= entries@);
            }
        },
        _ => {
            let id = payload_field(&msg.data, "id", &msg.id);
            let channel = payload_field(&msg.data, "channel", &msg.channel);
            let symbol = payload_field(&msg.data, "symbol", &msg.symbol);
            let (ah, ol) = match &msg.data {
                Some(d) => (bool_flag(d, "afterHours"), bool_flag(d, "intradayOddLot")),
                None => (false, false),
            };
            match (id, channel, symbol) {
                (Some(id), Some(c), Some(s)) => {
                    let key = build_sub_key(c.as_str(), s.as_str(), ah, ol);
                    subscriptions.record_server_id(key, id);
                },
                _ => {},
            }
        },
    }
}

} // verus!
