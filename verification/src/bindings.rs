//! The decisions of the script-language bindings: which credential was
//! given, which callback an event goes to and with what text, which
//! endpoint a custom base URL names, and how subscribe and unsubscribe
//! options are read.

use crate::json::{spec_as_str, spec_get, JsonValue};
use crate::models::{strings_view, AuthRequest, Channel, FutOptChannel};
use crate::session::ConnectionEvent;
use crate::text::{decimal, join2, push_decimal};
use vstd::prelude::*;

verus! {

/// Parameters of the stock intraday quote request.
#[derive(Debug, Clone, PartialEq, Eq)]
pub struct StockIntradayQuoteParams {
    /// The symbol.
    pub symbol: String,
    /// Whether to quote the odd-lot session.
    pub odd_lot: Option<bool>,
}

/// Parameters of requests that only take a symbol.
#[derive(Debug, Clone, PartialEq, Eq)]
pub struct SymbolParams {
    /// The symbol.
    pub symbol: String,
}

/// The message of a missing or ambiguous credential.
pub open spec fn credential_message() -> Seq<char> {
    "Provide exactly one of: apiKey, bearerToken, sdkToken"@
}

/// How many of the three credentials are given.
pub open spec fn given_count(a: Option<String>, b: Option<String>, c: Option<String>) -> nat {
    (if a is Some { 1nat } else { 0nat }) + (if b is Some { 1nat } else { 0nat }) + (if c is Some {
        1nat
    } else {
        0nat
    })
}

/// The credential of REST client options: exactly one of API key, bearer
/// token and SDK token must be given.
pub fn rest_credential(api_key: Option<String>, bearer_token: Option<String>, sdk_token: Option<String>) -> (r:
    Result<AuthRequest, String>)
    ensures
        given_count(api_key, bearer_token, sdk_token) != 1 ==> (r matches Err(m) && m@
            == credential_message()),
        given_count(api_key, bearer_token, sdk_token) == 1 ==> match r {
            Ok(AuthRequest::ApiKey(k)) => api_key == Some(k),
            Ok(AuthRequest::BearerToken(t)) => bearer_token == Some(t),
            Ok(AuthRequest::SdkToken(t)) => sdk_token == Some(t),
            Err(_) => false,
        },
{
    match (api_key, bearer_token, sdk_token) {
        (Some(k), None, None) => Ok(AuthRequest::ApiKey(k)),
        (None, Some(t), None) => Ok(AuthRequest::BearerToken(t)),
        (None, None, Some(t)) => Ok(AuthRequest::SdkToken(t)),
        _ => Err(String::from_str("Provide exactly one of: apiKey, bearerToken, sdkToken")),
    }
}

/// The credential text of streaming client options: exactly one of API
/// key, bearer token and SDK token must be given; whichever it is, its
/// text is sent as an API key.
pub fn streaming_credential(api_key: Option<String>, bearer_token: Option<String>, sdk_token: Option<
    String,
>) -> (r: Result<String, String>)
    ensures
        given_count(api_key, bearer_token, sdk_token) != 1 ==> (r matches Err(m) && m@
            == credential_message()),
        given_count(api_key, bearer_token, sdk_token) == 1 ==> match r {
            Ok(s) => api_key == Some(s) || bearer_token == Some(s) || sdk_token == Some(s),
            Err(_) => false,
        },
{
    match (api_key, bearer_token, sdk_token) {
        (Some(k), None, None) => Ok(k),
        (None, Some(t), None) => Ok(t),
        (None, None, Some(t)) => Ok(t),
        _ => Err(String::from_str("Provide exactly one of: apiKey, bearerToken, sdkToken")),
    }
}

/// The callbacks a script can register.
#[derive(Debug, Clone, Copy, PartialEq, Eq, Structural)]
pub enum CallbackSlot {
    /// Inbound messages.
    Message,
    /// The connection is up.
    Connect,
    /// The connection is down.
    Disconnect,
    /// A reconnection attempt.
    Reconnect,
    /// Errors.
    Error,
    /// Credentials accepted.
    Authenticated,
    /// Credentials rejected.
    Unauthenticated,
}

/// The slot named by an event name, if any.
pub open spec fn slot_named(name: Seq<char>) -> Option<CallbackSlot> {
    if name == "message"@ {
        Some(CallbackSlot::Message)
    } else if name == "connect"@ {
        Some(CallbackSlot::Connect)
    } else if name == "disconnect"@ {
        Some(CallbackSlot::Disconnect)
    } else if name == "reconnect"@ {
        Some(CallbackSlot::Reconnect)
    } else if name == "error"@ {
        Some(CallbackSlot::Error)
    } else if name == "authenticated"@ {
        Some(CallbackSlot::Authenticated)
    } else if name == "unauthenticated"@ {
        Some(CallbackSlot::Unauthenticated)
    } else {
        None
    }
}

/// The message rejecting an unknown event name.
pub open spec fn unknown_event_message(name: Seq<char>) -> Seq<char> {
    "Unknown event type: "@ + name
        + ". Valid events: message, connect, disconnect, reconnect, error, authenticated, unauthenticated"@
}

/// The callback slot an event name registers.
pub fn callback_slot(event: &str) -> (r: Result<CallbackSlot, String>)
    ensures
        match slot_named(event@) {
            Some(s) => r == Ok::<CallbackSlot, String>(s),
            None => r matches Err(m) && m@ == unknown_event_message(event@),
        },
{
    if crate::text::str_eq(event, "message") {
        Ok(CallbackSlot::Message)
    } else if crate::text::str_eq(event, "connect") {
        Ok(CallbackSlot::Connect)
    } else if crate::text::str_eq(event, "disconnect") {
        Ok(CallbackSlot::Disconnect)
    } else if crate::text::str_eq(event, "reconnect") {
        Ok(CallbackSlot::Reconnect)
    } else if crate::text::str_eq(event, "error") {
        Ok(CallbackSlot::Error)
    } else if crate::text::str_eq(event, "authenticated") {
        Ok(CallbackSlot::Authenticated)
    } else if crate::text::str_eq(event, "unauthenticated") {
        Ok(CallbackSlot::Unauthenticated)
    } else {
        let mut m = join2("Unknown event type: ", event);
        m.append(
            ". Valid events: message, connect, disconnect, reconnect, error, authenticated, unauthenticated",
        );
        Err(m)
    }
}

/// Which callback a lifecycle event reaches and with what text:
/// reconnection attempts as `{"attempt":N}`, errors as `[code] message`,
/// closes as `{"code":N,"reason":"..."}` (0 for no code), abandoned
/// reconnection as an error, credential verdicts as such; other events
/// reach no callback.
pub open spec fn event_callback_spec(ev: ConnectionEvent, r: Option<(CallbackSlot, String)>) -> bool {
    match ev {
        ConnectionEvent::Reconnecting { attempt } => r matches Some((s, t)) && s
            == CallbackSlot::Reconnect && t@ == "{\"attempt\":"@ + decimal(attempt as nat) + "}"@,
        ConnectionEvent::Error { message, code } => r matches Some((s, t)) && s == CallbackSlot::Error
            && t@ == "["@ + signed_decimal(code as int) + "] "@ + message@,
        ConnectionEvent::Disconnected { code, reason } => r matches Some((s, t)) && s
            == CallbackSlot::Disconnect && t@ == "{\"code\":"@ + decimal(
            match code {
                Some(c) => c as nat,
                None => 0nat,
            },
        ) + ",\"reason\":\""@ + reason@ + "\"}"@,
        ConnectionEvent::ReconnectFailed { attempts } => r matches Some((s, t)) && s
            == CallbackSlot::Error && t@ == "Reconnection failed after "@ + decimal(attempts as nat)
            + " attempts"@,
        ConnectionEvent::Authenticated => r matches Some((s, t)) && s == CallbackSlot::Authenticated
            && t@ == "authenticated"@,
        ConnectionEvent::Unauthenticated { message } => r matches Some((s, t)) && s
            == CallbackSlot::Unauthenticated && t@ == message@,
        _ => r is None,
    }
}

/// The decimal text of a signed number.
pub open spec fn signed_decimal(n: int) -> Seq<char> {
    if n < 0 {
        seq!['-'] + decimal((-n) as nat)
    } else {
        decimal(n as nat)
    }
}

fn push_signed(out: &mut String, n: i32)
    ensures
        final(out)@ == old(out)@ + signed_decimal(n as int),
{
    if n < 0 {
        crate::text::push_char(out, '-');
        let m: i64 = -(n as i64);
        push_decimal(out, m as u128);
        proof {
            assert(final(out)@ =~= old(out)@ + signed_decimal(n as int));
        }
    } else {
        push_decimal(out, n as u128);
    }
}

/// The callback and text a lifecycle event is delivered as.
pub fn event_callback(ev: &ConnectionEvent) -> (r: Option<(CallbackSlot, String)>)
    ensures
        event_callback_spec(*ev, r),
{
    match ev {
        ConnectionEvent::Reconnecting { attempt } => {
            let mut t = String::from_str("{\"attempt\":");
            push_decimal(&mut t, *attempt as u128);
            t.append("}");
            Some((CallbackSlot::Reconnect, t))
        },
        ConnectionEvent::Error { message, code } => {
            let mut t = String::from_str("[");
            push_signed(&mut t, *code);
            t.append("] ");
            t.append(message.as_str());
            Some((CallbackSlot::Error, t))
        },
        ConnectionEvent::Disconnected { code, reason } => {
            let mut t = String::from_str("{\"code\":");
            let c: u16 = match code {
                Some(c) => *c,
                None => 0,
            };
            push_decimal(&mut t, c as u128);
            t.append(",\"reason\":\"");
            t.append(reason.as_str());
            t.append("\"}");
            Some((CallbackSlot::Disconnect, t))
        },
        ConnectionEvent::ReconnectFailed { attempts } => {
            let mut t = String::from_str("Reconnection failed after ");
            push_decimal(&mut t, *attempts as u128);
            t.append(" attempts");
            Some((CallbackSlot::Error, t))
        },
        ConnectionEvent::Authenticated => Some(
            (CallbackSlot::Authenticated, String::from_str("authenticated")),
        ),
        ConnectionEvent::Unauthenticated { message } => Some(
            (CallbackSlot::Unauthenticated, message.clone()),
        ),
        _ => None,
    }
}

/// The streaming endpoint under a custom base URL: the base without
/// trailing slashes, then `/stock/streaming` or `/futopt/streaming`.
pub open spec fn streaming_url_under(base: Seq<char>, stock: bool) -> Seq<char> {
    crate::urls::trim_trailing_slashes(base) + if stock {
        "/stock/streaming"@
    } else {
        "/futopt/streaming"@
    }
}

/// The streaming endpoint under a custom base URL.
pub fn streaming_url(base: &str, stock: bool) -> (url: String)
    ensures
        url@ == streaming_url_under(base@, stock),
{
    let trimmed = crate::urls::trim_end_slashes(base);
    let mut url = String::from_str(trimmed);
    if stock {
        url.append("/stock/streaming");
    } else {
        url.append("/futopt/streaming");
    }
    url
}

/// The lowercase form of a string, as Unicode defines it.
pub uninterp spec fn lowercase(s: Seq<char>) -> Seq<char>;

/// `str::to_lowercase`: the Unicode lowercase form of `s`.
#[verifier::external_body]
fn to_lowercase(s: &str) -> (r: String)
    ensures
        r@ == lowercase(s@),
{
    s.to_lowercase()
}

/// The stock channel a script names, matched after lowercasing.
pub open spec fn stock_channel_named(name: Seq<char>) -> Option<Channel> {
    let l = lowercase(name);
    if l == "trades"@ {
        Some(Channel::Trades)
    } else if l == "candles"@ {
        Some(Channel::Candles)
    } else if l == "books"@ {
        Some(Channel::Books)
    } else if l == "aggregates"@ {
        Some(Channel::Aggregates)
    } else if l == "indices"@ {
        Some(Channel::Indices)
    } else {
        None
    }
}

/// The futures/options channel a script names, matched after lowercasing.
pub open spec fn futopt_channel_named(name: Seq<char>) -> Option<FutOptChannel> {
    let l = lowercase(name);
    if l == "trades"@ {
        Some(FutOptChannel::Trades)
    } else if l == "candles"@ {
        Some(FutOptChannel::Candles)
    } else if l == "books"@ {
        Some(FutOptChannel::Books)
    } else if l == "aggregates"@ {
        Some(FutOptChannel::Aggregates)
    } else {
        None
    }
}

/// The stock channel named by `name` (case-insensitively), if any.
pub fn stock_channel(name: &str) -> (r: Option<Channel>)
    ensures
        r == stock_channel_named(name@),
{
    let l = to_lowercase(name);
    let s = l.as_str();
    if crate::text::str_eq(s, "trades") {
        Some(Channel::Trades)
    } else if crate::text::str_eq(s, "candles") {
        Some(Channel::Candles)
    } else if crate::text::str_eq(s, "books") {
        Some(Channel::Books)
    } else if crate::text::str_eq(s, "aggregates") {
        Some(Channel::Aggregates)
    } else if crate::text::str_eq(s, "indices") {
        Some(Channel::Indices)
    } else {
        None
    }
}

/// The futures/options channel named by `name` (case-insensitively), if any.
pub fn futopt_channel(name: &str) -> (r: Option<FutOptChannel>)
    ensures
        r == futopt_channel_named(name@),
{
    let l = to_lowercase(name);
    let s = l.as_str();
    if crate::text::str_eq(s, "trades") {
        Some(FutOptChannel::Trades)
    } else if crate::text::str_eq(s, "candles") {
        Some(FutOptChannel::Candles)
    } else if crate::text::str_eq(s, "books") {
        Some(FutOptChannel::Books)
    } else if crate::text::str_eq(s, "aggregates") {
        Some(FutOptChannel::Aggregates)
    } else {
        None
    }
}

/// The string elements of an array, in order; other elements are skipped.
pub open spec fn string_items(items: Seq<JsonValue>) -> Seq<Seq<char>>
    decreases items.len(),
{
    if items.len() == 0 {
        Seq::empty()
    } else {
        let before = string_items(items.drop_last());
        match spec_as_str(items.last()) {
            Some(s) => before.push(s),
            None => before,
        }
    }
}

/// The string member `key` of an options object.
pub open spec fn option_str(options: JsonValue, key: Seq<char>) -> Option<Seq<char>> {
    match spec_get(options, key) {
        Some(v) => spec_as_str(v),
        None => None,
    }
}

/// The string elements of the array member `key` of an options object.
pub open spec fn option_list(options: JsonValue, key: Seq<char>) -> Option<Seq<Seq<char>>> {
    match spec_get(options, key) {
        Some(JsonValue::Array(items)) => Some(string_items(items@)),
        _ => None,
    }
}

/// The targets of a subscribe or unsubscribe call: exactly one of the
/// single member `one` and the list member `many` must be given, and the
/// list must keep at least one string. The messages name the call `verb`.
pub open spec fn targets_of(options: JsonValue, verb: Seq<char>, one: Seq<char>, many: Seq<char>, noun: Seq<char>) -> Result<
    Seq<Seq<char>>,
    Seq<char>,
> {
    match (option_str(options, one), option_list(options, many)) {
        (Some(s), None) => Ok(seq![s]),
        (None, Some(list)) => if list.len() > 0 {
            Ok(list)
        } else {
            Err(
                verb + "({"@ + many + ":[]}) is empty - provide at least one "@ + noun,
            )
        },
        (Some(_), Some(_)) => Err(
            verb + "() accepts either '"@ + one + "' or '"@ + many + "', not both"@,
        ),
        (None, None) => Err(verb + "() requires '"@ + one + "' or '"@ + many + "'"@),
    }
}

/// Whether a result of a targets read matches [`targets_of`].
pub open spec fn targets_match(r: Result<Vec<String>, String>, expected: Result<Seq<Seq<char>>, Seq<char>>) -> bool {
    match (r, expected) {
        (Ok(v), Ok(e)) => strings_view(v@) == e,
        (Err(m), Err(e)) => m@ == e,
        _ => false,
    }
}

fn string_list(items: &Vec<JsonValue>) -> (r: Vec<String>)
    ensures
        strings_view(r@) == string_items(items@),
{
    let mut out: Vec<String> = Vec::new();
    let mut i: usize = 0;
    while i < items.len()
        invariant
            i <= items.len(),
            strings_view(out@) == string_items(items@.take(i as int)),
        decreases items.len() - i,
    {
        proof {
            assert(items@.take(i + 1).drop_last() =~= items@.take(i as int));
            assert(items@.take(i + 1).last() == items@[i as int]);
        }
        match items[i].as_str() {
            Some(s) => {
                let ghost before = out@;
                out.push(String::from_str(s));
                proof {
                    assert(strings_view(out@) =~= strings_view(before).push(s@));
                }
            },
            None => {},
        }
        i = i + 1;
    }
    proof {
        assert(items@.take(items.len() as int) =~= items@);
    }
    out
}

fn read_targets(options: &JsonValue, verb: &str, one: &str, many: &str, noun: &str) -> (r: Result<
    Vec<String>,
    String,
>)
    ensures
        targets_match(r, targets_of(*options, verb@, one@, many@, noun@)),
{
    let single = match options.get(one) {
        Some(v) => match v.as_str() {
            Some(s) => Some(String::from_str(s)),
            None => None,
        },
        None => None,
    };
    let list = match options.get(many) {
        Some(v) => match v.as_array() {
            Some(items) => Some(string_list(items)),
            None => None,
        },
        None => None,
    };
    match (single, list) {
        (Some(s), None) => {
            let mut v: Vec<String> = Vec::new();
            let ghost sv = s@;
            v.push(s);
            proof {
                assert(strings_view(v@) =~= seq![sv]);
            }
            Ok(v)
        },
        (None, Some(l)) => {
            if l.len() > 0 {
                Ok(l)
            } else {
                let mut m = join2(verb, "({");
                m.append(many);
                m.append(":[]}) is empty - provide at least one ");
                m.append(noun);
                Err(m)
            }
        },
        (Some(_), Some(_)) => {
            let mut m = join2(verb, "() accepts either '");
            m.append(one);
            m.append("' or '");
            m.append(many);
            m.append("', not both");
            Err(m)
        },
        (None, None) => {
            let mut m = join2(verb, "() requires '");
            m.append(one);
            m.append("' or '");
            m.append(many);
            m.append("'");
            Err(m)
        },
    }
}

/// The symbols of a subscribe call: `symbol` or a non-empty `symbols` list.
pub fn subscribe_targets(options: &JsonValue) -> (r: Result<Vec<String>, String>)
    ensures
        targets_match(r, targets_of(*options, "subscribe"@, "symbol"@, "symbols"@, "symbol"@)),
{
    read_targets(options, "subscribe", "symbol", "symbols", "symbol")
}

/// The ids of an unsubscribe call: a bare string, or `id` or a non-empty
/// `ids` list.
pub fn unsubscribe_targets(options: &JsonValue) -> (r: Result<Vec<String>, String>)
    ensures
        match *options {
            JsonValue::Str(s) => r matches Ok(v) && strings_view(v@) == seq![s@],
            _ => targets_match(r, targets_of(*options, "unsubscribe"@, "id"@, "ids"@, "id"@)),
        },
{
    match options {
        JsonValue::Str(s) => {
            let mut v: Vec<String> = Vec::new();
            v.push(s.clone());
            proof {
                assert(strings_view(v@) =~= seq![s@]);
            }
            Ok(v)
        },
        _ => read_targets(options, "unsubscribe", "id", "ids", "id"),
    }
}

/// The channel name of a subscribe call.
pub fn subscribe_channel_name(options: &JsonValue) -> (r: Result<String, String>)
    ensures
        match option_str(*options, "channel"@) {
            Some(c) => r matches Ok(s) && s@ == c,
            None => r matches Err(m) && m@ == "Missing 'channel' field"@,
        },
{
    match options.get("channel") {
        Some(v) => match v.as_str() {
            Some(s) => Ok(String::from_str(s)),
            None => Err(String::from_str("Missing 'channel' field")),
        },
        None => Err(String::from_str("Missing 'channel' field")),
    }
}

/// Foreign-function poll result: a message was returned.
pub const MESSAGE_AVAILABLE: i32 = 1;
/// Foreign-function poll result: no message was waiting.
pub const NO_MESSAGE: i32 = 0;
/// Foreign-function state code: disconnected.
pub const STATE_DISCONNECTED: i32 = 0;
/// Foreign-function state code: connecting.
pub const STATE_CONNECTING: i32 = 1;
/// Foreign-function state code: connected.
pub const STATE_CONNECTED: i32 = 2;
/// Foreign-function state code: reconnecting.
pub const STATE_RECONNECTING: i32 = 3;

/// The channel a foreign caller names (exact, lowercase names only).
pub open spec fn ffi_channel_named(name: Seq<char>) -> Option<Channel> {
    if name == "trades"@ {
        Some(Channel::Trades)
    } else if name == "candles"@ {
        Some(Channel::Candles)
    } else if name == "books"@ {
        Some(Channel::Books)
    } else if name == "aggregates"@ {
        Some(Channel::Aggregates)
    } else if name == "indices"@ {
        Some(Channel::Indices)
    } else {
        None
    }
}

/// The channel named by a foreign caller; an unknown name is rejected as
/// an invalid symbol `Invalid channel: <name>`.
pub fn ffi_channel(name: &str) -> (r: Result<Channel, crate::error::MarketDataError>)
    ensures
        match ffi_channel_named(name@) {
            Some(c) => r == Ok::<Channel, crate::error::MarketDataError>(c),
            None => r matches Err(crate::error::MarketDataError::InvalidSymbol { symbol }) && symbol@
                == "Invalid channel: "@ + name@,
        },
{
    if crate::text::str_eq(name, "trades") {
        Ok(Channel::Trades)
    } else if crate::text::str_eq(name, "candles") {
        Ok(Channel::Candles)
    } else if crate::text::str_eq(name, "books") {
        Ok(Channel::Books)
    } else if crate::text::str_eq(name, "aggregates") {
        Ok(Channel::Aggregates)
    } else if crate::text::str_eq(name, "indices") {
        Ok(Channel::Indices)
    } else {
        Err(crate::error::MarketDataError::InvalidSymbol { symbol: join2("Invalid channel: ", name) })
    }
}

/// Every stock channel goes on the wire under the name a foreign caller
/// uses for it: parsing a channel's wire name gives the channel back, so
/// no two channels share a name and none has a name the bindings reject.
pub proof fn law_channel_name_round_trip(c: Channel)
    ensures
        ffi_channel_named(crate::models::channel_name(c)) == Some(c),
{
    reveal_strlit("trades");
    reveal_strlit("candles");
    reveal_strlit("books");
    reveal_strlit("aggregates");
    reveal_strlit("indices");
    let n = crate::models::channel_name(c);
    assert(n == "trades"@ || n[0] != 't');
    assert(n == "candles"@ || n[0] != 'c');
    assert(n == "books"@ || n[0] != 'b');
    assert(n == "aggregates"@ || n[0] != 'a');
}

/// Each lifecycle event reaches the callback a script registers under the
/// event's own name: reconnection attempts `reconnect`, closes
/// `disconnect`, errors and abandoned reconnection `error`, and the two
/// credential verdicts `authenticated` and `unauthenticated`; a rejection
/// hands its message over unchanged. No other event reaches a callback,
/// and the `unauthenticated` callback is reached by rejections alone.
pub proof fn law_event_reaches_its_named_callback(ev: ConnectionEvent, r: Option<(CallbackSlot, String)>)
    requires
        event_callback_spec(ev, r),
    ensures
        ev is Reconnecting ==> (r matches Some((s, _)) && Some(s) == slot_named("reconnect"@)),
        ev is Disconnected ==> (r matches Some((s, _)) && Some(s) == slot_named("disconnect"@)),
        ev is Error ==> (r matches Some((s, _)) && Some(s) == slot_named("error"@)),
        ev is ReconnectFailed ==> (r matches Some((s, _)) && Some(s) == slot_named("error"@)),
        ev is Authenticated ==> (r matches Some((s, _)) && Some(s) == slot_named("authenticated"@)),
        ev matches ConnectionEvent::Unauthenticated { message } ==> (r matches Some((s, t)) && Some(s)
            == slot_named("unauthenticated"@) && t@ == message@),
        (ev is Connecting || ev is Connected || ev is HeartbeatTimeout) <==> r is None,
        (r matches Some((s, _)) && s == CallbackSlot::Unauthenticated) <==> ev is Unauthenticated,
{
    reveal_strlit("message");
    reveal_strlit("connect");
    reveal_strlit("disconnect");
    reveal_strlit("reconnect");
    reveal_strlit("error");
    reveal_strlit("authenticated");
    reveal_strlit("unauthenticated");
    assert("reconnect"@ != "message"@ && "reconnect"@ != "connect"@ && "reconnect"@
        != "disconnect"@) by {
        assert("reconnect"@[0] != "message"@[0]);
        assert("reconnect"@.len() != "connect"@.len());
        assert("reconnect"@.len() != "disconnect"@.len());
    }
    assert("disconnect"@ != "message"@ && "disconnect"@ != "connect"@) by {
        assert("disconnect"@.len() != "message"@.len());
        assert("disconnect"@.len() != "connect"@.len());
    }
    assert("error"@ != "message"@ && "error"@ != "connect"@ && "error"@ != "disconnect"@
        && "error"@ != "reconnect"@) by {
        assert("error"@.len() == 5);
    }
    assert("authenticated"@ != "message"@ && "authenticated"@ != "connect"@ && "authenticated"@
        != "disconnect"@ && "authenticated"@ != "reconnect"@ && "authenticated"@ != "error"@) by {
        assert("authenticated"@.len() == 13);
    }
    assert("unauthenticated"@ != "message"@ && "unauthenticated"@ != "connect"@
        && "unauthenticated"@ != "disconnect"@ && "unauthenticated"@ != "reconnect"@
        && "unauthenticated"@ != "error"@ && "unauthenticated"@ != "authenticated"@) by {
        assert("unauthenticated"@.len() == 15);
    }
}

} // verus!
