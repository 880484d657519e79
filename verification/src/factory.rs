//! A factory deriving the stock and futures/options endpoint
//! configurations from one credential and an optional base URL. The
//! credential must be given before an endpoint can be derived; the type
//! parameter records whether it has been.

use crate::config::{ConnectionConfig, ConnectionConfigBuilder, has_defaults};
use crate::error::MarketDataError;
use crate::models::AuthRequest;
use crate::reconnection::is_config_error;
use crate::text::IntoText;
use crate::urls::{spec_with_version, versioned_base_message, with_version, WS_BASE_ROOT};
use crate::version::{futopt_version_str, stock_version_str, FutOptVersion, StockVersion};
use vstd::prelude::*;

verus! {

/// Points from the `base_url` rejection to the options that own the version.
pub const VERSION_OPTION_HINT: &'static str =
    "The version comes from the streaming version options, e.g. .futopt_version(FutOptVersion::V1_1).";

/// Factory state before the credential is set.
#[derive(Debug, Clone, Default)]
pub struct Unset;

/// Factory state once the credential is set.
#[derive(Debug, Clone)]
pub struct WithAuth(pub AuthRequest);

/// Derives endpoint configurations from a credential and a base URL.
#[derive(Clone, Debug)]
pub struct WebSocketFactory<S = Unset> {
    state: S,
    base_url: Option<String>,
    stock_version: StockVersion,
    futopt_version: FutOptVersion,
}

/// The endpoint for product `kind` at `version`: the production root when
/// no base is set, otherwise the base composed with the version (which may
/// reject the base), followed by `/kind/streaming`.
pub open spec fn spec_endpoint(base: Option<Seq<char>>, kind: Seq<char>, version: Seq<char>) -> Option<
    Seq<char>,
> {
    match base {
        None => Some(WS_BASE_ROOT@ + seq!['/'] + version + seq!['/'] + kind + "/streaming"@),
        Some(b) => match spec_with_version(b, version) {
            Some(prefix) => Some(prefix + seq!['/'] + kind + "/streaming"@),
            None => None,
        },
    }
}

/// The settings endpoints are derived from: base URL and the two versions.
pub struct FactorySettings {
    /// The base URL override, if any.
    pub base: Option<Seq<char>>,
    /// The stock version.
    pub stock: StockVersion,
    /// The futures/options version.
    pub futopt: FutOptVersion,
}

/// One setting step of a factory.
pub enum FactorySetting {
    /// `base_url` with this text.
    BaseUrl(Seq<char>),
    /// `stock_version` with this version.
    Stock(StockVersion),
    /// `futopt_version` with this version.
    Futopt(FutOptVersion),
}

/// The settings after one step.
pub open spec fn applied(s: FactorySettings, op: FactorySetting) -> FactorySettings {
    match op {
        FactorySetting::BaseUrl(b) => FactorySettings { base: Some(b), ..s },
        FactorySetting::Stock(v) => FactorySettings { stock: v, ..s },
        FactorySetting::Futopt(v) => FactorySettings { futopt: v, ..s },
    }
}

/// The settings after the steps, in order.
pub open spec fn applied_all(s: FactorySettings, ops: Seq<FactorySetting>) -> FactorySettings
    decreases ops.len(),
{
    if ops.len() == 0 {
        s
    } else {
        applied(applied_all(s, ops.drop_last()), ops.last())
    }
}

/// The stock endpoint derived from settings (`None` when the base is rejected).
pub open spec fn stock_endpoint(s: FactorySettings) -> Option<Seq<char>> {
    spec_endpoint(s.base, "stock"@, stock_version_str(s.stock))
}

/// The futures/options endpoint derived from settings.
pub open spec fn futopt_endpoint(s: FactorySettings) -> Option<Seq<char>> {
    spec_endpoint(s.base, "futopt"@, futopt_version_str(s.futopt))
}

impl WebSocketFactory<Unset> {
    /// A factory for the production endpoints with default versions
    /// (stock 1.0, futures/options 1.1).
    pub fn new() -> (f: Self)
        ensures
            f.base() is None,
            f.pinned_stock_version() == StockVersion::V1_0,
            f.pinned_futopt_version() == FutOptVersion::V1_1,
    {
        WebSocketFactory {
            state: Unset,
            base_url: None,
            stock_version: StockVersion::V1_0,
            futopt_version: FutOptVersion::V1_1,
        }
    }

    /// Sets the credential, making endpoints derivable.
    pub fn auth(self, auth: AuthRequest) -> (f: WebSocketFactory<WithAuth>)
        ensures
            f.credential() == auth,
            f.base() == self.base(),
            f.pinned_stock_version() == self.pinned_stock_version(),
            f.pinned_futopt_version() == self.pinned_futopt_version(),
            f.settings() == self.settings(),
    {
        WebSocketFactory {
            state: WithAuth(auth),
            base_url: self.base_url,
            stock_version: self.stock_version,
            futopt_version: self.futopt_version,
        }
    }
}

impl Default for WebSocketFactory<Unset> {
    fn default() -> (f: Self)
        ensures
            f.base() is None,
            f.pinned_stock_version() == StockVersion::V1_0,
            f.pinned_futopt_version() == FutOptVersion::V1_1,
    {
        Self::new()
    }
}

impl<S> WebSocketFactory<S> {
    /// The base URL override, if any.
    pub closed spec fn base(self) -> Option<Seq<char>> {
        match self.base_url {
            Some(b) => Some(b@),
            None => None,
        }
    }

    /// The stock version endpoints are derived at.
    pub closed spec fn pinned_stock_version(self) -> StockVersion {
        self.stock_version
    }

    /// The futures/options version endpoints are derived at.
    pub closed spec fn pinned_futopt_version(self) -> FutOptVersion {
        self.futopt_version
    }

    /// The factory state.
    pub closed spec fn state(self) -> S {
        self.state
    }

    /// The base URL and versions together.
    pub open spec fn settings(self) -> FactorySettings {
        FactorySettings {
            base: self.base(),
            stock: self.pinned_stock_version(),
            futopt: self.pinned_futopt_version(),
        }
    }

    /// Overrides the base URL: host and path prefix only, without the
    /// version segment, which the factory appends.
    pub fn base_url<B: IntoText>(self, base: B) -> (f: Self)
        ensures
            f.base() == Some(base.text_view()),
            f.pinned_stock_version() == self.pinned_stock_version(),
            f.pinned_futopt_version() == self.pinned_futopt_version(),
            f.state() == self.state(),
            f.settings() == applied(self.settings(), FactorySetting::BaseUrl(base.text_view())),
    {
        let mut f = self;
        f.base_url = Some(base.into_text());
        f
    }

    /// Pins the stock streaming version.
    pub fn stock_version(self, version: StockVersion) -> (f: Self)
        ensures
            f.base() == self.base(),
            f.pinned_stock_version() == version,
            f.pinned_futopt_version() == self.pinned_futopt_version(),
            f.state() == self.state(),
            f.settings() == applied(self.settings(), FactorySetting::Stock(version)),
    {
        let mut f = self;
        f.stock_version = version;
        f
    }

    /// Pins the futures/options streaming version.
    pub fn futopt_version(self, version: FutOptVersion) -> (f: Self)
        ensures
            f.base() == self.base(),
            f.pinned_stock_version() == self.pinned_stock_version(),
            f.pinned_futopt_version() == version,
            f.state() == self.state(),
            f.settings() == applied(self.settings(), FactorySetting::Futopt(version)),
    {
        let mut f = self;
        f.futopt_version = version;
        f
    }

    fn endpoint_for(&self, kind: &str, version: &str) -> (r: Result<String, MarketDataError>)
        ensures
            match spec_endpoint(self.base(), kind@, version@) {
                Some(url) => r is Ok && r->Ok_0@ == url,
                None => r is Err && self.base() is Some && is_config_error(
                    r->Err_0,
                    versioned_base_message(self.base()->Some_0, VERSION_OPTION_HINT@),
                ),
            },
    {
        match &self.base_url {
            None => {
                let mut url = String::from_str(WS_BASE_ROOT);
                url.append("/");
                url.append(version);
                url.append("/");
                url.append(kind);
                url.append("/streaming");
                proof {
                    reveal_strlit("/");
                }
                Ok(url)
            },
            Some(base) => {
                let mut url = with_version(base.as_str(), version, VERSION_OPTION_HINT)?;
                url.append("/");
                url.append(kind);
                url.append("/streaming");
                proof {
                    reveal_strlit("/");
                }
                Ok(url)
            },
        }
    }
}

/// The credential and its derived builder agree, and the builder starts
/// from the defaults.
pub open spec fn derived_builder(b: ConnectionConfigBuilder, url: Seq<char>, auth: AuthRequest) -> bool {
    &&& b.spec_build().url@ == url
    &&& b.spec_build().auth == auth
    &&& has_defaults(
        b.spec_build().connect_timeout,
        b.spec_build().read_timeout,
        b.spec_build().tls,
        b.spec_build().message_buffer,
        b.spec_build().event_buffer,
        b.spec_build().client_id,
    )
}

impl WebSocketFactory<WithAuth> {
    /// The credential endpoints are derived with.
    pub closed spec fn credential(self) -> AuthRequest {
        self.state.0
    }

    /// The stock streaming endpoint as a builder; fails when the base URL
    /// already ends in a version segment.
    pub fn stock(&self) -> (r: Result<ConnectionConfigBuilder, MarketDataError>)
        ensures
            match spec_endpoint(self.base(), "stock"@, stock_version_str(self.pinned_stock_version())) {
                Some(url) => r is Ok && derived_builder(r->Ok_0, url, self.credential()),
                None => r is Err && self.base() is Some && is_config_error(
                    r->Err_0,
                    versioned_base_message(self.base()->Some_0, VERSION_OPTION_HINT@),
                ),
            },
    {
        let url = self.endpoint_for("stock", self.stock_version.as_str())?;
        Ok(ConnectionConfig::builder(url, self.state.0.duplicate()))
    }

    /// The futures/options streaming endpoint as a builder; fails when the
    /// base URL already ends in a version segment.
    pub fn futopt(&self) -> (r: Result<ConnectionConfigBuilder, MarketDataError>)
        ensures
            match spec_endpoint(self.base(), "futopt"@, futopt_version_str(self.pinned_futopt_version())) {
                Some(url) => r is Ok && derived_builder(r->Ok_0, url, self.credential()),
                None => r is Err && self.base() is Some && is_config_error(
                    r->Err_0,
                    versioned_base_message(self.base()->Some_0, VERSION_OPTION_HINT@),
                ),
            },
    {
        let url = self.endpoint_for("futopt", self.futopt_version.as_str())?;
        Ok(ConnectionConfig::builder(url, self.state.0.duplicate()))
    }
}

/// Trailing slashes on a custom base URL do not change the endpoint (or
/// whether the base is rejected).
pub proof fn law_trailing_slash_is_ignored(base: Seq<char>, kind: Seq<char>, version: Seq<char>)
    ensures
        spec_endpoint(Some(base.push('/')), kind, version) == spec_endpoint(Some(base), kind, version),
{
    assert(base.push('/').drop_last() =~= base);
}

/// Rejection of a base URL that already carries a version segment does not
/// depend on the product or the version asked for.
pub proof fn law_versioned_base_rejected_for_every_product(
    base: Seq<char>,
    kind_a: Seq<char>,
    version_a: Seq<char>,
    kind_b: Seq<char>,
    version_b: Seq<char>,
)
    ensures
        (spec_endpoint(Some(base), kind_a, version_a) is None) == (spec_endpoint(
            Some(base),
            kind_b,
            version_b,
        ) is None),
{
}

/// Giving the credential before or after any sequence of `base_url`,
/// `stock_version` and `futopt_version` steps ends in the same factory:
/// `auth` keeps the settings, and each step acts on the settings alone in
/// either state, so the settings, and with them the stock and
/// futures/options endpoints, agree whichever comes first.
pub proof fn law_auth_commutes_with_settings(
    unset: WebSocketFactory<Unset>,
    authed: WebSocketFactory<WithAuth>,
    ops: Seq<FactorySetting>,
)
    requires
        authed.settings() == unset.settings(),
    ensures
        applied_all(authed.settings(), ops) == applied_all(unset.settings(), ops),
        stock_endpoint(applied_all(authed.settings(), ops)) == stock_endpoint(
            applied_all(unset.settings(), ops),
        ),
        futopt_endpoint(applied_all(authed.settings(), ops)) == futopt_endpoint(
            applied_all(unset.settings(), ops),
        ),
{
}

} // verus!
