//! Connection configuration and its fluent builder.

use crate::duration::{from_secs, spans_exactly};
use crate::models::AuthRequest;
use crate::text::{truncate_utf8, utf8_size, IntoText};
use crate::urls::{FUTOPT_WS, STOCK_WS};
use std::time::Duration;
use vstd::prelude::*;

verus! {

/// Default capacity of the inbound message channel.
pub const DEFAULT_MESSAGE_BUFFER: usize = 4096;
/// Default capacity of the lifecycle event channel.
pub const DEFAULT_EVENT_BUFFER: usize = 1024;
/// Longest accepted client identifier, in bytes of UTF-8.
pub const CLIENT_ID_MAX_LEN: usize = 64;
/// Default connect and read timeout, in seconds.
pub const DEFAULT_TIMEOUT_SECS: u64 = 30;

/// TLS customization: an extra root certificate and an opt-out of
/// certificate verification (for tests only).
#[derive(Debug, Clone, Default)]
pub struct TlsConfig {
    /// Additional root CA in PEM form, trusted alongside the system store.
    pub root_cert_pem: Option<Vec<u8>>,
    /// Disables all certificate verification.
    pub accept_invalid_certs: bool,
}

impl TlsConfig {
    /// The system trust store with verification on.
    pub fn system() -> (t: Self)
        ensures
            t.root_cert_pem is None,
            !t.accept_invalid_certs,
    {
        TlsConfig { root_cert_pem: None, accept_invalid_certs: false }
    }
}

/// Configuration of one WebSocket connection.
#[derive(Clone)]
pub struct ConnectionConfig {
    /// WebSocket endpoint URL.
    pub url: String,
    /// Credentials.
    pub auth: AuthRequest,
    /// Connection timeout (default 30 s).
    pub connect_timeout: Duration,
    /// Read timeout (default 30 s).
    pub read_timeout: Duration,
    /// TLS customization.
    pub tls: TlsConfig,
    /// Capacity of the inbound message channel.
    pub message_buffer: usize,
    /// Capacity of the lifecycle event channel.
    pub event_buffer: usize,
    /// Low-cardinality identifier used as a metric label.
    pub client_id: Option<String>,
}

/// The defaults every configuration starts from, apart from URL and
/// credentials.
pub open spec fn has_defaults(
    connect_timeout: Duration,
    read_timeout: Duration,
    tls: TlsConfig,
    message_buffer: usize,
    event_buffer: usize,
    client_id: Option<String>,
) -> bool {
    &&& spans_exactly(connect_timeout, DEFAULT_TIMEOUT_SECS as nat * 1_000_000_000)
    &&& spans_exactly(read_timeout, DEFAULT_TIMEOUT_SECS as nat * 1_000_000_000)
    &&& tls.root_cert_pem is None
    &&& !tls.accept_invalid_certs
    &&& message_buffer == DEFAULT_MESSAGE_BUFFER
    &&& event_buffer == DEFAULT_EVENT_BUFFER
    &&& client_id is None
}

impl ConnectionConfig {
    /// A configuration for `url` with default timeouts and buffers.
    pub fn new<U: IntoText>(url: U, auth: AuthRequest) -> (c: Self)
        ensures
            c.url@ == url.text_view(),
            c.auth == auth,
            has_defaults(
                c.connect_timeout,
                c.read_timeout,
                c.tls,
                c.message_buffer,
                c.event_buffer,
                c.client_id,
            ),
    {
        ConnectionConfig {
            url: url.into_text(),
            auth,
            connect_timeout: from_secs(DEFAULT_TIMEOUT_SECS),
            read_timeout: from_secs(DEFAULT_TIMEOUT_SECS),
            tls: TlsConfig::system(),
            message_buffer: DEFAULT_MESSAGE_BUFFER,
            event_buffer: DEFAULT_EVENT_BUFFER,
            client_id: None,
        }
    }

    /// A builder for `url` starting from the defaults.
    pub fn builder<U: IntoText>(url: U, auth: AuthRequest) -> (b: ConnectionConfigBuilder)
        ensures
            b.spec_build().url@ == url.text_view(),
            b.spec_build().auth == auth,
            has_defaults(
                b.spec_build().connect_timeout,
                b.spec_build().read_timeout,
                b.spec_build().tls,
                b.spec_build().message_buffer,
                b.spec_build().event_buffer,
                b.spec_build().client_id,
            ),
    {
        ConnectionConfigBuilder {
            url: url.into_text(),
            auth,
            connect_timeout: from_secs(DEFAULT_TIMEOUT_SECS),
            read_timeout: from_secs(DEFAULT_TIMEOUT_SECS),
            tls: TlsConfig::system(),
            message_buffer: DEFAULT_MESSAGE_BUFFER,
            event_buffer: DEFAULT_EVENT_BUFFER,
            client_id: None,
        }
    }

    /// The client identifier, if one was set.
    pub fn client_id(&self) -> (id: Option<&str>)
        ensures
            match id {
                Some(s) => self.client_id is Some && s@ == self.client_id->Some_0@,
                None => self.client_id is None,
            },
    {
        match &self.client_id {
            Some(s) => Some(s.as_str()),
            None => None,
        }
    }

    /// The production stock endpoint.
    pub fn fugle_stock(auth: AuthRequest) -> (c: Self)
        ensures
            c.url@ == STOCK_WS@,
            c.auth == auth,
            has_defaults(
                c.connect_timeout,
                c.read_timeout,
                c.tls,
                c.message_buffer,
                c.event_buffer,
                c.client_id,
            ),
    {
        Self::new(STOCK_WS, auth)
    }

    /// The production futures/options endpoint, at version 1.1.
    pub fn fugle_futopt(auth: AuthRequest) -> (c: Self)
        ensures
            c.url@ == FUTOPT_WS@,
            c.auth == auth,
            has_defaults(
                c.connect_timeout,
                c.read_timeout,
                c.tls,
                c.message_buffer,
                c.event_buffer,
                c.client_id,
            ),
    {
        Self::new(FUTOPT_WS, auth)
    }
}

/// Builder for [`ConnectionConfig`].
pub struct ConnectionConfigBuilder {
    url: String,
    auth: AuthRequest,
    connect_timeout: Duration,
    read_timeout: Duration,
    tls: TlsConfig,
    message_buffer: usize,
    event_buffer: usize,
    client_id: Option<String>,
}

/// The client identifier kept for `id`: its longest prefix that fits in
/// [`CLIENT_ID_MAX_LEN`] bytes, cut between characters.
pub open spec fn kept_client_id(id: Seq<char>, kept: Seq<char>) -> bool {
    exists|k: int|
        #![trigger id.take(k)]
        0 <= k <= id.len() && kept == id.take(k) && utf8_size(id.take(k)) <= CLIENT_ID_MAX_LEN
            && (k == id.len() || utf8_size(id.take(k + 1)) > CLIENT_ID_MAX_LEN)
}

impl ConnectionConfigBuilder {
    /// The URL being configured.
    pub closed spec fn url(self) -> String {
        self.url
    }

    /// The credentials being configured.
    pub closed spec fn auth(self) -> AuthRequest {
        self.auth
    }

    /// The configuration `build` would return.
    pub closed spec fn spec_build(self) -> ConnectionConfig {
        ConnectionConfig {
            url: self.url,
            auth: self.auth,
            connect_timeout: self.connect_timeout,
            read_timeout: self.read_timeout,
            tls: self.tls,
            message_buffer: self.message_buffer,
            event_buffer: self.event_buffer,
            client_id: self.client_id,
        }
    }

    /// Sets the connection timeout.
    pub fn connect_timeout(self, timeout: Duration) -> (b: Self)
        ensures
            b.spec_build() == (ConnectionConfig { connect_timeout: timeout, ..self.spec_build() }),
    {
        let mut b = self;
        b.connect_timeout = timeout;
        b
    }

    /// Sets the read timeout.
    pub fn read_timeout(self, timeout: Duration) -> (b: Self)
        ensures
            b.spec_build() == (ConnectionConfig { read_timeout: timeout, ..self.spec_build() }),
    {
        let mut b = self;
        b.read_timeout = timeout;
        b
    }

    /// Replaces the TLS configuration.
    pub fn tls(self, tls: TlsConfig) -> (b: Self)
        ensures
            b.spec_build() == (ConnectionConfig { tls: tls, ..self.spec_build() }),
    {
        let mut b = self;
        b.tls = tls;
        b
    }

    /// Sets the inbound message-channel capacity; zero is a configuration
    /// mistake that the caller must not make.
    pub fn message_buffer(self, cap: usize) -> (b: Self)
        requires
            cap > 0,
        ensures
            b.spec_build() == (ConnectionConfig { message_buffer: cap, ..self.spec_build() }),
    {
        let mut b = self;
        b.message_buffer = cap;
        b
    }

    /// Sets the lifecycle event-channel capacity; must not be zero.
    pub fn event_buffer(self, cap: usize) -> (b: Self)
        requires
            cap > 0,
        ensures
            b.spec_build() == (ConnectionConfig { event_buffer: cap, ..self.spec_build() }),
    {
        let mut b = self;
        b.event_buffer = cap;
        b
    }

    /// Sets the client identifier, truncated to [`CLIENT_ID_MAX_LEN`] bytes
    /// at a character boundary.
    pub fn client_id<I: IntoText>(self, id: I) -> (b: Self)
        ensures
            b.spec_build().client_id is Some,
            kept_client_id(id.text_view(), b.spec_build().client_id->Some_0@),
            b.spec_build() == (ConnectionConfig {
                client_id: b.spec_build().client_id,
                ..self.spec_build()
            }),
    {
        let full = id.into_text();
        let kept = truncate_utf8(full.as_str(), CLIENT_ID_MAX_LEN);
        let mut b = self;
        b.client_id = Some(kept);
        b
    }

    /// Sets the client identifier when one is given; otherwise unchanged.
    pub fn maybe_client_id<I: IntoText>(self, id: Option<I>) -> (b: Self)
        ensures
            id is None ==> b.spec_build() == self.spec_build(),
            id is Some ==> b.spec_build().client_id is Some && kept_client_id(
                id->Some_0.text_view(),
                b.spec_build().client_id->Some_0@,
            ) && b.spec_build() == (ConnectionConfig {
                client_id: b.spec_build().client_id,
                ..self.spec_build()
            }),
    {
        match id {
            Some(i) => self.client_id(i),
            None => self,
        }
    }

    /// The finished configuration.
    pub fn build(self) -> (c: ConnectionConfig)
        ensures
            c == self.spec_build(),
    {
        ConnectionConfig {
            url: self.url,
            auth: self.auth,
            connect_timeout: self.connect_timeout,
            read_timeout: self.read_timeout,
            tls: self.tls,
            message_buffer: self.message_buffer,
            event_buffer: self.event_buffer,
            client_id: self.client_id,
        }
    }
}

/// A character folded to lowercase when it is an ASCII capital.
pub open spec fn ascii_fold(c: char) -> int {
    if 'A' <= c && c <= 'Z' {
        c as int + 32
    } else {
        c as int
    }
}

/// Equality of two texts ignoring ASCII case.
pub open spec fn eq_ignore_ascii_case(a: Seq<char>, b: Seq<char>) -> bool {
    a.len() == b.len() && forall|i: int| 0 <= i < a.len() ==> ascii_fold(#[trigger] a[i]) == ascii_fold(b[i])
}

/// Query parameter names whose values are secrets: `token`, `key`,
/// `apikey`, `api_key`, `secret`, `password`, in any ASCII case.
pub open spec fn is_sensitive_key(k: Seq<char>) -> bool {
    ||| eq_ignore_ascii_case(k, "token"@)
    ||| eq_ignore_ascii_case(k, "key"@)
    ||| eq_ignore_ascii_case(k, "apikey"@)
    ||| eq_ignore_ascii_case(k, "api_key"@)
    ||| eq_ignore_ascii_case(k, "secret"@)
    ||| eq_ignore_ascii_case(k, "password"@)
}

fn fold_char(c: char) -> (r: u32)
    ensures
        r == ascii_fold(c),
{
    let v = c as u32;
    if 'A' <= c && c <= 'Z' {
        v + 32
    } else {
        v
    }
}

fn same_ignoring_ascii_case(a: &str, b: &str) -> (r: bool)
    ensures
        r == eq_ignore_ascii_case(a@, b@),
{
    let n = a.unicode_len();
    if n != b.unicode_len() {
        return false;
    }
    let mut i: usize = 0;
    while i < n
        invariant
            i <= n,
            n == a@.len(),
            n == b@.len(),
            forall|j: int| 0 <= j < i ==> ascii_fold(#[trigger] a@[j]) == ascii_fold(b@[j]),
        decreases n - i,
    {
        if fold_char(a.get_char(i)) != fold_char(b.get_char(i)) {
            return false;
        }
        i = i + 1;
    }
    true
}

/// Whether a query parameter named `k` holds a secret.
pub fn is_sensitive_query_key(k: &str) -> (r: bool)
    ensures
        r == is_sensitive_key(k@),
{
    same_ignoring_ascii_case(k, "token") || same_ignoring_ascii_case(k, "key")
        || same_ignoring_ascii_case(k, "apikey") || same_ignoring_ascii_case(k, "api_key")
        || same_ignoring_ascii_case(k, "secret") || same_ignoring_ascii_case(k, "password")
}

/// The views of name-value pairs.
pub open spec fn pairs_view(v: Seq<(String, String)>) -> Seq<(Seq<char>, Seq<char>)> {
    v.map_values(|p: (String, String)| (p.0@, p.1@))
}

/// Pairs with every secret value replaced by `***`.
pub open spec fn redacted_pairs(p: Seq<(Seq<char>, Seq<char>)>) -> Seq<(Seq<char>, Seq<char>)> {
    p.map_values(
        |kv: (Seq<char>, Seq<char>)|
            (
                kv.0,
                if is_sensitive_key(kv.0) {
                    "***"@
                } else {
                    kv.1
                },
            ),
    )
}

/// Query parameters with every secret value replaced by `***`; names and
/// order are kept.
pub fn redact_query_pairs(pairs: &Vec<(String, String)>) -> (r: Vec<(String, String)>)
    ensures
        pairs_view(r@) == redacted_pairs(pairs_view(pairs@)),
        r@.len() == pairs@.len(),
        forall|i: int|
            0 <= i < pairs@.len() ==> (#[trigger] r@[i]).0@ == pairs@[i].0@ && r@[i].1@ == (if is_sensitive_key(
                pairs@[i].0@,
            ) {
                "***"@
            } else {
                pairs@[i].1@
            }),
{
    let mut out: Vec<(String, String)> = Vec::new();
    let mut i: usize = 0;
    while i < pairs.len()
        invariant
            i <= pairs.len(),
            out@.len() == i,
            forall|j: int|
                0 <= j < i ==> (#[trigger] out@[j]).0@ == pairs@[j].0@ && out@[j].1@ == (if is_sensitive_key(
                    pairs@[j].0@,
                ) {
                    "***"@
                } else {
                    pairs@[j].1@
                }),
        decreases pairs.len() - i,
    {
        let k = pairs[i].0.clone();
        let v = if is_sensitive_query_key(pairs[i].0.as_str()) {
            String::from_str("***")
        } else {
            pairs[i].1.clone()
        };
        out.push((k, v));
        i = i + 1;
    }
    proof {
        assert(pairs_view(out@) =~= redacted_pairs(pairs_view(pairs@)));
    }
    out
}

/// The text of the URL that `url` parses to, or `None` when it does not
/// parse (`url::Url::parse`, then its serialization).
pub uninterp spec fn url_text(url: Seq<char>) -> Option<Seq<char>>;

/// The decoded query parameters of the URL that `url` parses to, in order
/// (`url::Url::query_pairs`).
pub uninterp spec fn url_query_pairs(url: Seq<char>) -> Seq<(Seq<char>, Seq<char>)>;

/// The text of the URL that `url` parses to, with its query replaced by
/// the form-encoded `pairs` (`url::Url::query_pairs_mut`, cleared, then
/// extended).
pub uninterp spec fn url_with_query(url: Seq<char>, pairs: Seq<(Seq<char>, Seq<char>)>) -> Seq<
    char,
>;

/// `url::Url::parse`, then the URL's text: `None` when `url` does not
/// parse. The result is named, not spelled out: it is a function of `url`
/// alone.
#[verifier::external_body]
fn serialized_url(url: &str) -> (r: Option<String>)
    ensures
        match r {
            Some(t) => url_text(url@) == Some(t@),
            None => url_text(url@) is None,
        },
{
    match url::Url::parse(url) {
        Ok(u) => Some(u.to_string()),
        Err(_) => None,
    }
}

/// `url::Url::parse`, then `query_pairs`: the decoded name-value pairs of
/// the query, in order; `None` exactly when `url` does not parse.
#[verifier::external_body]
fn parse_query(url: &str) -> (r: Option<Vec<(String, String)>>)
    ensures
        (r is Some) == (url_text(url@) is Some),
        r matches Some(v) ==> pairs_view(v@) == url_query_pairs(url@),
{
    match url::Url::parse(url) {
        Ok(u) => Some(u.query_pairs().map(|(k, v)| (k.into_owned(), v.into_owned())).collect()),
        Err(_) => None,
    }
}

/// `url::Url::parse`, then `query_pairs_mut().clear().extend_pairs(pairs)`
/// and the URL's text.
#[verifier::external_body]
fn replace_query(url: &str, pairs: &Vec<(String, String)>) -> (r: String)
    requires
        url_text(url@) is Some,
    ensures
        r@ == url_with_query(url@, pairs_view(pairs@)),
{
    match url::Url::parse(url) {
        Ok(mut u) => {
            u.query_pairs_mut().clear().extend_pairs(pairs.iter());
            u.to_string()
        },
        Err(_) => url.to_string(),
    }
}

/// `url` with the values of secret query parameters replaced by `***`: an
/// unparseable URL comes back unchanged, a URL without query parameters
/// comes back as parsed, and otherwise the query is rewritten with the
/// secret values masked.
pub fn redact_url_query(url: &str) -> (s: String)
    ensures
        url_text(url@) is None ==> s@ == url@,
        url_text(url@) is Some && url_query_pairs(url@).len() == 0 ==> s@ == url_text(
            url@,
        )->Some_0,
        url_text(url@) is Some && url_query_pairs(url@).len() > 0 ==> s@ == url_with_query(
            url@,
            redacted_pairs(url_query_pairs(url@)),
        ),
{
    match parse_query(url) {
        None => String::from_str(url),
        Some(pairs) => {
            if pairs.len() == 0 {
                match serialized_url(url) {
                    Some(t) => t,
                    None => String::from_str(url),
                }
            } else {
                let masked = redact_query_pairs(&pairs);
                replace_query(url, &masked)
            }
        },
    }
}

} // verus!
