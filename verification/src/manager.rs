//! The life of the tokens of one provider.
//!
//! An [`OAuthStartup`] is what the configuration and the environment give. The
//! request that it makes is sent, and with the outcome an
//! [`OAuthTokenManager`] comes into being. From then on the manager says what
//! to do next, and is told what came of it, for as long as the session lasts.

use crate::config::OAuthConfig;
use crate::delay::{
    delay_secs, law_delay_bounds, law_delay_is_share_of_ttl, next_refresh_delay, whole_seconds,
    MIN_RETRY_DELAY_SECS,
};
use crate::env::{
    env_setting, env_value, is_entry, law_absent_variable_has_no_value, law_entry_gives_setting,
    read_env_var, EnvVar,
};
use crate::error::{outcome, OAuthError, OAuthErrorView};
use crate::refresh::{
    lemma_header_names_differ, EndpointView, OAuthTokenState, RefreshEndpoint, RefreshRequest, RefreshRequestView, TokenView,
};
use crate::url::{are_parts, build_refresh_url, law_url_joins_parts, refresh_url};
use core::time::Duration;
use vstd::prelude::*;

verus! {

/// What a manager needs before its first refresh.
#[derive(Debug, PartialEq, Eq)]
pub struct OAuthStartup {
    endpoint: RefreshEndpoint,
    fallback_interval: u64,
    api_token: String,
    refresh_token: String,
}

/// [`OAuthStartup`] with its text as sequences of characters.
pub struct StartupView {
    pub endpoint: EndpointView,
    pub fallback_interval: u64,
    pub api_token: Seq<char>,
    pub refresh_token: Seq<char>,
}

impl View for OAuthStartup {
    type V = StartupView;

    closed spec fn view(&self) -> StartupView {
        StartupView {
            endpoint: self.endpoint@,
            fallback_interval: self.fallback_interval,
            api_token: self.api_token@,
            refresh_token: self.refresh_token@,
        }
    }
}

/// The API token for the very first refresh: the setting of its variable, or
/// nothing where there is no such variable or it gives no setting.
pub open spec fn initial_api_token(config: OAuthConfig, env: Seq<EnvVar>) -> Seq<char> {
    match config.initial_api_token_env {
        Some(name) => match env_setting(name@, env_value(env, name@)) {
            Ok(token) => token,
            Err(_) => Seq::empty(),
        },
        None => Seq::empty(),
    }
}

/// What a configuration, the base URL of the provider and the environment give.
/// Of two required variables that give no setting, the error is about the
/// subscription key.
pub open spec fn startup_outcome(
    config: OAuthConfig,
    base_url: Seq<char>,
    env: Seq<EnvVar>,
) -> Result<StartupView, OAuthErrorView> {
    let key_name = config.subscription_key_env@;
    let token_name = config.initial_refresh_token_env@;
    match (
        env_setting(key_name, env_value(env, key_name)),
        env_setting(token_name, env_value(env, token_name)),
    ) {
        (Err(error), _) => Err(error),
        (Ok(_), Err(error)) => Err(error),
        (Ok(subscription_key), Ok(refresh_token)) => Ok(
            StartupView {
                endpoint: EndpointView {
                    url: refresh_url(base_url, config.refresh_path@),
                    subscription_key,
                    api_version: config.api_version@,
                },
                fallback_interval: config.fallback_interval_spec(),
                api_token: initial_api_token(config, env),
                refresh_token,
            },
        ),
    }
}

/// The API token for the very first refresh is optional: whether there is a
/// variable for it, and what it holds, changes nothing but that token.
pub proof fn law_initial_api_token_is_optional(
    config: OAuthConfig,
    other: Option<String>,
    base_url: Seq<char>,
    env: Seq<EnvVar>,
)
    ensures
        ({
            let changed = OAuthConfig { initial_api_token_env: other, ..config };
            startup_outcome(changed, base_url, env) == match startup_outcome(config, base_url, env) {
                Ok(startup) => Ok(
                    StartupView { api_token: initial_api_token(changed, env), ..startup },
                ),
                Err(error) => Err(error),
            }
        }),
{
}

/// No environment variable counts but those that the configuration lists.
pub proof fn law_only_listed_variables_count(
    config: OAuthConfig,
    base_url: Seq<char>,
    env: Seq<EnvVar>,
    other: Seq<EnvVar>,
)
    requires
        forall|i: int|
            0 <= i < config.env_names_spec().len() ==> env_value(
                env,
                #[trigger] config.env_names_spec()[i],
            ) == env_value(other, config.env_names_spec()[i]),
    ensures
        startup_outcome(config, base_url, env) == startup_outcome(config, base_url, other),
{
    let names = config.env_names_spec();
    assert(names[0] == config.subscription_key_env@);
    assert(names[1] == config.initial_refresh_token_env@);
    if let Some(name) = config.initial_api_token_env {
        assert(names[2] == name@);
    }
}

/// Startup keeps to the configuration: the first request and all later ones go
/// to the configured path below the base URL, with the configured version. The
/// base URL and the path are given by their parts, with slashes between.
pub proof fn law_startup_keeps_configuration(
    config: OAuthConfig,
    base: Seq<char>,
    back: Seq<char>,
    front: Seq<char>,
    path: Seq<char>,
    env: Seq<EnvVar>,
)
    requires
        base.len() > 0 ==> base[base.len() - 1] != '/',
        forall|i: int| 0 <= i < back.len() ==> #[trigger] back[i] == '/',
        forall|i: int| 0 <= i < front.len() ==> #[trigger] front[i] == '/',
        path.len() > 0 ==> path[0] != '/',
        config.refresh_path@ == front + path,
    ensures
        startup_outcome(config, base + back, env) matches Ok(startup) ==> {
            &&& startup.endpoint.url == base + seq!['/'] + path
            &&& startup.endpoint.api_version == config.api_version@
            &&& config.refresh_interval_secs matches Some(secs) ==> startup.fallback_interval
                == secs
            &&& config.refresh_interval_secs is None ==> startup.fallback_interval == 1500
        },
{
    law_url_joins_parts(base, back, front, path);
}

/// Startup takes each credential from the variable that the configuration names
/// for it: `key` and `token` are the entries for the two names, each with its
/// setting between white space. A credential is taken whole.
pub proof fn law_startup_takes_credentials(
    config: OAuthConfig,
    base_url: Seq<char>,
    env: Seq<EnvVar>,
    key: (int, Seq<char>, Seq<char>, Seq<char>),
    token: (int, Seq<char>, Seq<char>, Seq<char>),
)
    requires
        is_entry(env, config.subscription_key_env@, key),
        is_entry(env, config.initial_refresh_token_env@, token),
    ensures
        startup_outcome(config, base_url, env) matches Ok(startup) && {
            &&& startup.endpoint.subscription_key == key.2
            &&& startup.refresh_token == token.2
            &&& config.initial_api_token_env is None ==> startup.api_token.len() == 0
        },
{
    law_entry_gives_setting(env, config.subscription_key_env@, key);
    law_entry_gives_setting(env, config.initial_refresh_token_env@, token);
}

/// Startup takes the API token for the very first refresh whole, too, where the
/// configuration names a variable for it and that holds one.
pub proof fn law_startup_takes_api_token(
    config: OAuthConfig,
    name: String,
    base_url: Seq<char>,
    env: Seq<EnvVar>,
    api: (int, Seq<char>, Seq<char>, Seq<char>),
)
    requires
        config.initial_api_token_env == Some(name),
        is_entry(env, name@, api),
    ensures
        startup_outcome(config, base_url, env) matches Ok(startup) ==> startup.api_token == api.2,
{
    law_entry_gives_setting(env, name@, api);
}

/// Startup fails without a required credential, and names the variable: where
/// both are missing, that of the subscription key.
pub proof fn law_startup_needs_credentials(
    config: OAuthConfig,
    base_url: Seq<char>,
    env: Seq<EnvVar>,
)
    ensures
        (forall|i: int|
            0 <= i < env.len() ==> (#[trigger] env[i]).name@ != config.subscription_key_env@)
            ==> startup_outcome(config, base_url, env) == Err::<StartupView, OAuthErrorView>(
            OAuthErrorView::EnvVarNotSet { name: config.subscription_key_env@ },
        ),
        (forall|i: int|
            0 <= i < env.len() ==> (#[trigger] env[i]).name@ != config.initial_refresh_token_env@)
            ==> startup_outcome(config, base_url, env) is Err,
{
    if forall|i: int|
        0 <= i < env.len() ==> (#[trigger] env[i]).name@ != config.subscription_key_env@ {
        law_absent_variable_has_no_value(env, config.subscription_key_env@);
    }
    if forall|i: int|
        0 <= i < env.len() ==> (#[trigger] env[i]).name@ != config.initial_refresh_token_env@ {
        law_absent_variable_has_no_value(env, config.initial_refresh_token_env@);
    }
}

impl OAuthStartup {
    /// Takes what is needed from the configuration, the base URL of the provider
    /// and the environment variables that [`OAuthConfig::env_names`] lists.
    #[verifier::rlimit(40)]
    pub fn from_config(config: &OAuthConfig, base_url: &str, env: &[EnvVar]) -> (r: Result<
        OAuthStartup,
        OAuthError,
    >)
        ensures
            outcome(r) == startup_outcome(*config, base_url@, env@),
            r is Ok <==> {
                &&& env_setting(
                    config.subscription_key_env@,
                    env_value(env@, config.subscription_key_env@),
                ) is Ok
                &&& env_setting(
                    config.initial_refresh_token_env@,
                    env_value(env@, config.initial_refresh_token_env@),
                ) is Ok
            },
            r matches Err(error) ==> match env_setting(
                    config.subscription_key_env@,
                    env_value(env@, config.subscription_key_env@),
                ) {
                Err(first) => error@ == first,
                Ok(_) => env_setting(
                    config.initial_refresh_token_env@,
                    env_value(env@, config.initial_refresh_token_env@),
                ) == Err::<
                    Seq<char>,
                    OAuthErrorView,
                >(error@),
            },
            r matches Ok(startup) ==> {
                // the address is the base URL, a slash and the refresh path
                &&& forall|base: Seq<char>, back: Seq<char>, front: Seq<char>, path: Seq<char>|
                    #![trigger base + back, front + path]
                    base_url@ == base + back && config.refresh_path@ == front + path && are_parts(
                        base,
                        back,
                        front,
                        path,
                    ) ==> startup@.endpoint.url == base + seq!['/'] + path
                &&& startup@.endpoint.api_version == config.api_version@
                &&& env_setting(
                    config.subscription_key_env@,
                    env_value(env@, config.subscription_key_env@),
                ) == Ok::<
                    Seq<char>,
                    OAuthErrorView,
                >(startup@.endpoint.subscription_key)
                &&& env_setting(
                    config.initial_refresh_token_env@,
                    env_value(env@, config.initial_refresh_token_env@),
                ) == Ok::<
                    Seq<char>,
                    OAuthErrorView,
                >(startup@.refresh_token)
                &&& config.refresh_interval_secs matches Some(secs) ==> startup@.fallback_interval
                    == secs
                &&& config.refresh_interval_secs is None ==> startup@.fallback_interval == 1500
                &&& config.initial_api_token_env is None ==> startup@.api_token.len() == 0
                &&& config.initial_api_token_env matches Some(name) ==> match env_setting(
                    name@,
                    env_value(env@, name@),
                ) {
                    Ok(token) => startup@.api_token == token,
                    Err(_) => startup@.api_token.len() == 0,
                }
            },
    {
        proof {
            assert forall|base: Seq<char>, back: Seq<char>, front: Seq<char>, path: Seq<char>|
                #![trigger base + back, front + path]
                base_url@ == base + back && config.refresh_path@ == front + path && are_parts(
                    base,
                    back,
                    front,
                    path,
                ) implies refresh_url(base_url@, config.refresh_path@) == base + seq!['/']
                + path by {
                law_url_joins_parts(base, back, front, path);
            }
        }
        let subscription_key = match read_env_var(env, config.subscription_key_env.as_str()) {
            Ok(key) => key,
            Err(error) => return Err(error),
        };
        let refresh_token = match read_env_var(env, config.initial_refresh_token_env.as_str()) {
            Ok(token) => token,
            Err(error) => return Err(error),
        };
        let api_token = match &config.initial_api_token_env {
            Some(name) => match read_env_var(env, name.as_str()) {
                Ok(token) => token,
                Err(_) => String::new(),
            },
            None => String::new(),
        };
        Ok(
            OAuthStartup {
                endpoint: RefreshEndpoint {
                    url: build_refresh_url(base_url, config.refresh_path.as_str()),
                    subscription_key,
                    api_version: config.api_version.clone(),
                },
                fallback_interval: config.fallback_interval(),
                api_token,
                refresh_token,
            },
        )
    }

    /// The very first refresh request.
    pub fn request(&self) -> (request: RefreshRequest)
        ensures
            request@ == self@.endpoint.request(self@.api_token, self@.refresh_token),
            request.url@ == self@.endpoint.url,
            request.headers@.len() == 4,
            forall|i: int|
                0 <= i < 4 ==> {
                    let header = #[trigger] request.headers@[i];
                    &&& header.0@ == "subscription-key"@ ==> header.1@
                        == self@.endpoint.subscription_key
                    &&& header.0@ == "api-version"@ ==> header.1@ == self@.endpoint.api_version
                    &&& header.0@ == "api-token"@ ==> header.1@ == self@.api_token
                    &&& header.0@ == "refresh-token"@ ==> header.1@ == self@.refresh_token
                },
    {
        proof {
            lemma_header_names_differ();
        }
        self.endpoint.request(self.api_token.as_str(), self.refresh_token.as_str())
    }
}

/// What a manager is doing.
#[derive(Debug, Clone, Copy, PartialEq, Eq, Structural)]
pub enum Phase {
    /// Waiting until the next refresh is due.
    Waiting,
    /// Waiting for the outcome of a refresh.
    Refreshing,
    /// Waiting for a short while after a failed refresh.
    BackingOff,
}

/// What is to be done next.
#[derive(Debug, PartialEq, Eq)]
pub enum RefreshAction {
    /// Let this much time pass until the next refresh is due.
    Wait(Duration),
    /// Let this much time pass after a failed refresh.
    BackOff(Duration),
    /// Send this request and evaluate what comes back.
    Send(RefreshRequest),
}

/// What came of an action.
#[derive(Debug, PartialEq, Eq)]
pub enum RefreshEvent {
    /// The time has passed.
    Elapsed,
    /// The request was evaluated, with this outcome.
    Finished(Result<OAuthTokenState, OAuthError>),
}

/// [`RefreshEvent`] with its text as sequences of characters.
pub enum RefreshEventView {
    Elapsed,
    Finished(Result<TokenView, OAuthErrorView>),
}

impl View for RefreshEvent {
    type V = RefreshEventView;

    open spec fn view(&self) -> RefreshEventView {
        match *self {
            RefreshEvent::Elapsed => RefreshEventView::Elapsed,
            RefreshEvent::Finished(result) => RefreshEventView::Finished(outcome(result)),
        }
    }
}

/// Manages the tokens of one provider.
#[derive(Debug, PartialEq, Eq)]
pub struct OAuthTokenManager {
    endpoint: RefreshEndpoint,
    fallback_interval: u64,
    state: OAuthTokenState,
    phase: Phase,
}

/// [`OAuthTokenManager`] with its text as sequences of characters.
pub struct ManagerView {
    pub endpoint: EndpointView,
    pub fallback_interval: u64,
    pub tokens: TokenView,
    pub phase: Phase,
}

impl View for OAuthTokenManager {
    type V = ManagerView;

    closed spec fn view(&self) -> ManagerView {
        ManagerView {
            endpoint: self.endpoint@,
            fallback_interval: self.fallback_interval,
            tokens: self.state@,
            phase: self.phase,
        }
    }
}

impl ManagerView {
    /// The request that trades the tokens in use for new ones.
    pub open spec fn request(self) -> RefreshRequestView {
        self.endpoint.request(self.tokens.api_token, self.tokens.refresh_token)
    }

    /// Seconds to let pass now, where the manager waits for time to pass.
    pub open spec fn wait_secs(self) -> nat {
        match self.phase {
            Phase::Waiting => delay_secs(self.tokens.expires_in, self.fallback_interval),
            Phase::Refreshing => 0,
            Phase::BackingOff => MIN_RETRY_DELAY_SECS as nat,
        }
    }

    /// The manager after an event. One that does not belong to what the manager
    /// is doing changes nothing.
    pub open spec fn step(self, event: RefreshEventView) -> ManagerView {
        match (self.phase, event) {
            (Phase::Waiting, RefreshEventView::Elapsed) => ManagerView {
                phase: Phase::Refreshing,
                ..self
            },
            (Phase::BackingOff, RefreshEventView::Elapsed) => ManagerView {
                phase: Phase::Refreshing,
                ..self
            },
            (Phase::Refreshing, RefreshEventView::Finished(Ok(tokens))) => ManagerView {
                tokens,
                phase: Phase::Waiting,
                ..self
            },
            (Phase::Refreshing, RefreshEventView::Finished(Err(_))) => ManagerView {
                phase: Phase::BackingOff,
                ..self
            },
            _ => self,
        }
    }

    /// The manager after a sequence of events.
    pub open spec fn run(self, events: Seq<RefreshEventView>) -> ManagerView
        decreases events.len(),
    {
        if events.len() == 0 {
            self
        } else {
            self.step(events.first()).run(events.drop_first())
        }
    }

    /// Seconds that pass during a sequence of events.
    pub open spec fn elapsed_secs(self, events: Seq<RefreshEventView>) -> nat
        decreases events.len(),
    {
        if events.len() == 0 {
            0
        } else {
            let now = match events.first() {
                RefreshEventView::Elapsed => self.wait_secs(),
                RefreshEventView::Finished(_) => 0,
            };
            now + self.step(events.first()).elapsed_secs(events.drop_first())
        }
    }
}

impl OAuthTokenManager {
    /// The manager that the very first refresh gives, or why that refresh failed.
    pub fn new(startup: OAuthStartup, first: Result<OAuthTokenState, OAuthError>) -> (r: Result<
        OAuthTokenManager,
        OAuthError,
    >)
        ensures
            outcome(r) == match outcome(first) {
                Ok(tokens) => Ok(
                    ManagerView {
                        endpoint: startup@.endpoint,
                        fallback_interval: startup@.fallback_interval,
                        tokens,
                        phase: Phase::Waiting,
                    },
                ),
                Err(error) => Err(error),
            },
            first matches Err(error) ==> r == Err::<OAuthTokenManager, OAuthError>(error),
            first matches Ok(state) ==> {
                &&& r matches Ok(manager)
                &&& manager@.tokens.api_token == state.api_token@
                &&& manager@.tokens.refresh_token == state.refresh_token@
                &&& manager@.tokens.expires_in == state.expires_in
                &&& manager@.endpoint == startup@.endpoint
                &&& manager@.fallback_interval == startup@.fallback_interval
                &&& manager@.phase == Phase::Waiting
            },
    {
        match first {
            Ok(state) => Ok(
                OAuthTokenManager {
                    endpoint: startup.endpoint,
                    fallback_interval: startup.fallback_interval,
                    state,
                    phase: Phase::Waiting,
                },
            ),
            Err(error) => Err(error),
        }
    }

    /// The token to use for API requests.
    pub fn current_api_token(&self) -> (token: String)
        ensures
            token@ == self@.tokens.api_token,
    {
        self.state.api_token.clone()
    }

    /// What is to be done next.
    pub fn next_action(&self) -> (action: RefreshAction)
        ensures
            match self@.phase {
                Phase::Refreshing => action matches RefreshAction::Send(request) && request@
                    == self@.request(),
                Phase::Waiting => action == RefreshAction::Wait(
                    whole_seconds(self@.wait_secs() as u64),
                ),
                Phase::BackingOff => action == RefreshAction::BackOff(
                    whole_seconds(self@.wait_secs() as u64),
                ),
            },
            self@.phase == Phase::Waiting ==> action == RefreshAction::Wait(
                whole_seconds(
                    delay_secs(self@.tokens.expires_in, self@.fallback_interval) as u64,
                ),
            ),
            self@.phase == Phase::BackingOff ==> action == RefreshAction::BackOff(
                whole_seconds(30),
            ),
            self@.phase == Phase::Refreshing ==> (action matches RefreshAction::Send(request) && {
                &&& request.url@ == self@.endpoint.url
                &&& request.headers@.len() == 4
                &&& forall|i: int|
                    0 <= i < 4 ==> {
                        let header = #[trigger] request.headers@[i];
                        &&& header.0@ == "subscription-key"@ ==> header.1@
                            == self@.endpoint.subscription_key
                        &&& header.0@ == "api-version"@ ==> header.1@
                            == self@.endpoint.api_version
                        &&& header.0@ == "api-token"@ ==> header.1@ == self@.tokens.api_token
                        &&& header.0@ == "refresh-token"@ ==> header.1@
                            == self@.tokens.refresh_token
                    }
            }),
    {
        proof {
            lemma_header_names_differ();
        }
        match self.phase {
            Phase::Waiting => RefreshAction::Wait(
                next_refresh_delay(self.state.expires_in, self.fallback_interval),
            ),
            Phase::Refreshing => RefreshAction::Send(
                self.endpoint.request(
                    self.state.api_token.as_str(),
                    self.state.refresh_token.as_str(),
                ),
            ),
            Phase::BackingOff => RefreshAction::BackOff(Duration::from_secs(MIN_RETRY_DELAY_SECS)),
        }
    }

    /// Takes note of what came of an action.
    pub fn handle(&mut self, event: RefreshEvent)
        ensures
            final(self)@ == old(self)@.step(event@),
            final(self)@.endpoint == old(self)@.endpoint,
            final(self)@.fallback_interval == old(self)@.fallback_interval,
            match event {
                RefreshEvent::Elapsed => {
                    &&& final(self)@.tokens == old(self)@.tokens
                    &&& final(self)@.phase == Phase::Refreshing
                },
                RefreshEvent::Finished(Ok(state)) if old(self)@.phase == Phase::Refreshing => {
                    &&& final(self)@.tokens.api_token == state.api_token@
                    &&& final(self)@.tokens.refresh_token == state.refresh_token@
                    &&& final(self)@.tokens.expires_in == state.expires_in
                    &&& final(self)@.phase == Phase::Waiting
                },
                RefreshEvent::Finished(Err(_)) if old(self)@.phase == Phase::Refreshing => {
                    &&& final(self)@.tokens == old(self)@.tokens
                    &&& final(self)@.phase == Phase::BackingOff
                },
                RefreshEvent::Finished(_) => final(self)@ == old(self)@,
            },
    {
        match (self.phase, event) {
            (Phase::Waiting, RefreshEvent::Elapsed) => {
                self.phase = Phase::Refreshing;
            },
            (Phase::BackingOff, RefreshEvent::Elapsed) => {
                self.phase = Phase::Refreshing;
            },
            (Phase::Refreshing, RefreshEvent::Finished(Ok(state))) => {
                self.state = state;
                self.phase = Phase::Waiting;
            },
            (Phase::Refreshing, RefreshEvent::Finished(Err(_))) => {
                self.phase = Phase::BackingOff;
            },
            _ => {},
        }
    }
}

/// Whatever a manager waits for, the time brings it to a refresh, with the
/// tokens that it has.
pub proof fn law_time_leads_to_refresh(manager: ManagerView)
    ensures
        ({
            let next = manager.step(RefreshEventView::Elapsed);
            &&& next.phase == Phase::Refreshing
            &&& next.tokens == manager.tokens
            &&& next.endpoint == manager.endpoint
            &&& next.fallback_interval == manager.fallback_interval
        }),
{
}

/// The outcome of a refresh counts while the manager refreshes, and at no other
/// time.
pub proof fn law_outcome_counts_while_refreshing(
    manager: ManagerView,
    tokens: TokenView,
    error: OAuthErrorView,
)
    ensures
        ({
            let success = manager.step(RefreshEventView::Finished(Ok(tokens)));
            let failure = manager.step(RefreshEventView::Finished(Err(error)));
            if manager.phase == Phase::Refreshing {
                &&& success.tokens == tokens
                &&& success.phase == Phase::Waiting
                &&& failure.tokens == manager.tokens
                &&& failure.phase == Phase::BackingOff
            } else {
                &&& success == manager
                &&& failure == manager
            }
        }),
{
}

/// A manager waits for the delay of its tokens before a refresh, and for 30
/// seconds after one that failed.
pub proof fn law_waits(manager: ManagerView)
    ensures
        manager.phase == Phase::Waiting ==> manager.wait_secs() == delay_secs(
            manager.tokens.expires_in,
            manager.fallback_interval,
        ),
        manager.phase == Phase::Waiting && 0 < manager.tokens.expires_in < 0x6_0000_0000_0000
            ==> manager.wait_secs() == if manager.tokens.expires_in * 4 / 5 < 30 {
            30
        } else {
            manager.tokens.expires_in as int * 4 / 5
        },
        manager.phase == Phase::Waiting && manager.tokens.expires_in == 0
            && manager.fallback_interval < 0x6_0000_0000_0000 ==> manager.wait_secs()
            == if manager.fallback_interval * 4 / 5 < 30 {
            30
        } else {
            manager.fallback_interval as int * 4 / 5
        },
        manager.phase == Phase::BackingOff ==> manager.wait_secs() == 30,
{
    law_delay_is_share_of_ttl(manager.tokens.expires_in, manager.fallback_interval);
}

/// Where the tokens are refreshed and the fallback interval stay the same
/// through any events.
pub proof fn law_settings_never_change(manager: ManagerView, events: Seq<RefreshEventView>)
    ensures
        manager.run(events).endpoint == manager.endpoint,
        manager.run(events).fallback_interval == manager.fallback_interval,
    decreases events.len(),
{
    if events.len() > 0 {
        law_settings_never_change(manager.step(events.first()), events.drop_first());
    }
}

/// Whether no event of these brings new tokens.
pub open spec fn no_new_tokens(events: Seq<RefreshEventView>) -> bool {
    forall|i: int|
        0 <= i < events.len() ==> !(#[trigger] events[i] matches RefreshEventView::Finished(Ok(_)))
}

/// Tokens stay in use for as long as no refresh succeeds, however many fail.
pub proof fn law_tokens_stay_without_success(manager: ManagerView, events: Seq<RefreshEventView>)
    requires
        no_new_tokens(events),
    ensures
        manager.run(events).tokens == manager.tokens,
    decreases events.len(),
{
    if events.len() > 0 {
        assert(!(events[0] matches RefreshEventView::Finished(Ok(_))));
        assert forall|i: int| 0 <= i < events.drop_first().len() implies !(
        #[trigger] events.drop_first()[i] matches RefreshEventView::Finished(Ok(_))) by {
            assert(!(events[i + 1] matches RefreshEventView::Finished(Ok(_))));
        }
        law_tokens_stay_without_success(manager.step(events.first()), events.drop_first());
    }
}

/// Events one after another are events in two parts.
pub proof fn lemma_run_in_parts(
    manager: ManagerView,
    first: Seq<RefreshEventView>,
    second: Seq<RefreshEventView>,
)
    ensures
        manager.run(first + second) == manager.run(first).run(second),
    decreases first.len(),
{
    if first.len() > 0 {
        assert((first + second).drop_first() =~= first.drop_first() + second);
        lemma_run_in_parts(manager.step(first.first()), first.drop_first(), second);
    } else {
        assert(first + second =~= second);
    }
}

/// The tokens in use are those of the latest refresh that succeeded.
pub proof fn law_latest_tokens_are_in_use(
    manager: ManagerView,
    before: Seq<RefreshEventView>,
    tokens: TokenView,
    after: Seq<RefreshEventView>,
)
    requires
        manager.run(before).phase == Phase::Refreshing,
        no_new_tokens(after),
    ensures
        manager.run(before + seq![RefreshEventView::Finished(Ok(tokens))] + after).tokens == tokens,
{
    let success = seq![RefreshEventView::Finished(Ok(tokens))];
    lemma_run_in_parts(manager, before + success, after);
    lemma_run_in_parts(manager, before, success);
    let refreshed = manager.run(before).step(success.first());
    assert(success.drop_first() =~= Seq::empty());
    assert(manager.run(before).run(success) == refreshed) by {
        reveal_with_fuel(ManagerView::run, 2);
    }
    law_tokens_stay_without_success(refreshed, after);
}

/// After a refresh that succeeds, the next one is due once the delay for the
/// new time to live has passed, and it sends the new tokens.
pub proof fn law_success_leads_to_refresh_with_new_tokens(manager: ManagerView, tokens: TokenView)
    requires
        manager.phase == Phase::Refreshing,
    ensures
        ({
            let events = seq![
                RefreshEventView::Finished(Ok(tokens)),
                RefreshEventView::Elapsed,
            ];
            let next = manager.run(events);
            &&& next.phase == Phase::Refreshing
            &&& next.request() == manager.endpoint.request(tokens.api_token, tokens.refresh_token)
            &&& manager.elapsed_secs(events) == delay_secs(
                tokens.expires_in,
                manager.fallback_interval,
            )
        }),
{
    let events = seq![RefreshEventView::Finished(Ok(tokens)), RefreshEventView::Elapsed];
    assert(events.drop_first() =~= seq![RefreshEventView::Elapsed]);
    assert(events.drop_first().drop_first() =~= Seq::empty());
    reveal_with_fuel(ManagerView::run, 3);
    reveal_with_fuel(ManagerView::elapsed_secs, 3);
}

/// A refresh that fails is repeated with the same tokens, after the least wait.
pub proof fn law_failure_leads_to_same_refresh(manager: ManagerView, error: OAuthErrorView)
    requires
        manager.phase == Phase::Refreshing,
    ensures
        ({
            let events = seq![RefreshEventView::Finished(Err(error)), RefreshEventView::Elapsed];
            &&& manager.run(events) == manager
            &&& manager.elapsed_secs(events) == MIN_RETRY_DELAY_SECS
        }),
{
    let events = seq![RefreshEventView::Finished(Err(error)), RefreshEventView::Elapsed];
    assert(events.drop_first() =~= seq![RefreshEventView::Elapsed]);
    assert(events.drop_first().drop_first() =~= Seq::empty());
    reveal_with_fuel(ManagerView::run, 3);
    reveal_with_fuel(ManagerView::elapsed_secs, 3);
}

/// A manager that is not refreshing, a fresh one among them, sends nothing
/// before the least wait.
pub proof fn law_wait_before_refresh(manager: ManagerView, events: Seq<RefreshEventView>)
    requires
        manager.phase != Phase::Refreshing,
        manager.run(events).phase == Phase::Refreshing,
    ensures
        manager.elapsed_secs(events) >= MIN_RETRY_DELAY_SECS,
    decreases events.len(),
{
    law_delay_bounds(manager.tokens.expires_in, manager.fallback_interval);
    match events.first() {
        RefreshEventView::Elapsed => {},
        RefreshEventView::Finished(_) => {
            law_wait_before_refresh(manager.step(events.first()), events.drop_first());
        },
    }
}

/// Between two refreshes lies at least the least wait, whatever comes of the
/// first one and whatever happens in between.
pub proof fn law_refreshes_are_spaced(
    manager: ManagerView,
    result: Result<TokenView, OAuthErrorView>,
    events: Seq<RefreshEventView>,
)
    requires
        manager.phase == Phase::Refreshing,
        manager.step(RefreshEventView::Finished(result)).run(events).phase == Phase::Refreshing,
    ensures
        manager.step(RefreshEventView::Finished(result)).elapsed_secs(events)
            >= MIN_RETRY_DELAY_SECS,
{
    law_wait_before_refresh(manager.step(RefreshEventView::Finished(result)), events);
}

} // verus!
