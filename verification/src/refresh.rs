//! One call of the refresh endpoint.
//!
//! A call is a [`RefreshRequest`] that is sent, the status of the response,
//! which [`check_status`] looks at, and the rest of the response, which is
//! read accordingly. [`refresh_once`] says what came of it.

use crate::delay::effective_ttl;
use crate::error::{outcome, OAuthError, OAuthErrorView};
use crate::http::HttpStatus;
use vstd::prelude::*;

verus! {

/// Seconds after which a call of the refresh endpoint is given up.
pub const REQUEST_TIMEOUT_SECS: u64 = 30;

/// A request to the refresh endpoint: a `POST` with these headers and without
/// a body.
#[derive(Debug, PartialEq, Eq)]
pub struct RefreshRequest {
    /// Address of the refresh endpoint.
    pub url: String,
    /// Name and value of each header.
    pub headers: Vec<(String, String)>,
}

/// [`RefreshRequest`] with its text as sequences of characters.
pub struct RefreshRequestView {
    pub url: Seq<char>,
    pub headers: Seq<(Seq<char>, Seq<char>)>,
}

impl View for RefreshRequest {
    type V = RefreshRequestView;

    open spec fn view(&self) -> RefreshRequestView {
        RefreshRequestView {
            url: self.url@,
            headers: self.headers@.map_values(|header: (String, String)| (header.0@, header.1@)),
        }
    }
}

/// Whether a request has a header of this name with this value.
pub open spec fn has_header(request: RefreshRequest, name: Seq<char>, value: Seq<char>) -> bool {
    exists|i: int|
        0 <= i < request.headers@.len() && (#[trigger] request.headers@[i]).0@ == name
            && request.headers@[i].1@ == value
}

/// What the refresh endpoint returns as JSON.
#[derive(Debug, PartialEq, Eq)]
pub struct OAuthRefreshResponse {
    /// The new token for API requests.
    pub api_token: String,
    /// The new refresh token, for the next refresh.
    pub refresh_token: String,
    /// Time to live of the token in seconds, if the server returned a usable one.
    pub expires_in: Option<u64>,
    /// Whether the server issued a new token.
    pub has_refreshed: bool,
}

impl OAuthRefreshResponse {
    /// What to warn of: that the server issued no new token.
    pub fn warning(&self) -> (text: Option<String>)
        ensures
            text is Some <==> !self.has_refreshed,
            text matches Some(text) ==> text@
                == "Token refresh endpoint returned hasRefreshed=false"@,
    {
        if self.has_refreshed {
            None
        } else {
            Some("Token refresh endpoint returned hasRefreshed=false".to_owned())
        }
    }
}

/// The tokens in use.
#[derive(Debug, PartialEq, Eq)]
pub struct OAuthTokenState {
    /// The token for API requests.
    pub api_token: String,
    /// The token for the next refresh.
    pub refresh_token: String,
    /// Time to live of the API token in seconds, or 0 if the server returned no
    /// usable one.
    pub expires_in: u64,
}

/// [`OAuthTokenState`] with its text as sequences of characters.
pub struct TokenView {
    pub api_token: Seq<char>,
    pub refresh_token: Seq<char>,
    pub expires_in: u64,
}

impl View for OAuthTokenState {
    type V = TokenView;

    open spec fn view(&self) -> TokenView {
        TokenView {
            api_token: self.api_token@,
            refresh_token: self.refresh_token@,
            expires_in: self.expires_in,
        }
    }
}

/// Where a provider refreshes its tokens, and how it knows its subscribers.
#[derive(Debug, PartialEq, Eq)]
pub struct RefreshEndpoint {
    /// Address of the refresh endpoint.
    pub url: String,
    /// Value of the `subscription-key` header.
    pub subscription_key: String,
    /// Value of the `api-version` header.
    pub api_version: String,
}

/// [`RefreshEndpoint`] with its text as sequences of characters.
pub struct EndpointView {
    pub url: Seq<char>,
    pub subscription_key: Seq<char>,
    pub api_version: Seq<char>,
}

impl View for RefreshEndpoint {
    type V = EndpointView;

    open spec fn view(&self) -> EndpointView {
        EndpointView {
            url: self.url@,
            subscription_key: self.subscription_key@,
            api_version: self.api_version@,
        }
    }
}

impl EndpointView {
    /// The request that trades these tokens for new ones.
    pub open spec fn request(
        self,
        api_token: Seq<char>,
        refresh_token: Seq<char>,
    ) -> RefreshRequestView {
        RefreshRequestView {
            url: self.url,
            headers: seq![
                ("subscription-key"@, self.subscription_key),
                ("api-version"@, self.api_version),
                ("api-token"@, api_token),
                ("refresh-token"@, refresh_token),
            ],
        }
    }
}

/// The four header names are different.
pub proof fn lemma_header_names_differ()
    ensures
        "subscription-key"@ != "api-version"@,
        "subscription-key"@ != "api-token"@,
        "subscription-key"@ != "refresh-token"@,
        "api-version"@ != "api-token"@,
        "api-version"@ != "refresh-token"@,
        "api-token"@ != "refresh-token"@,
{
    reveal_strlit("subscription-key");
    reveal_strlit("api-version");
    reveal_strlit("api-token");
    reveal_strlit("refresh-token");
    assert("subscription-key"@[0] == 's' && "api-version"@[0] == 'a');
    assert("api-token"@[0] == 'a' && "refresh-token"@[0] == 'r');
    assert("api-version"@[4] == 'v' && "api-token"@[4] == 't');
}

/// A request goes to the address of the endpoint, and has one header each with
/// the subscription key, the API version and the two tokens: `name` is looked up
/// among the headers, and `i` is any place where it is found.
pub proof fn law_request_headers_by_name(
    endpoint: EndpointView,
    api_token: Seq<char>,
    refresh_token: Seq<char>,
    i: int,
)
    requires
        0 <= i < endpoint.request(api_token, refresh_token).headers.len(),
    ensures
        ({
            let request = endpoint.request(api_token, refresh_token);
            let (name, value) = request.headers[i];
            &&& request.url == endpoint.url
            &&& request.headers.len() == 4
            &&& name == "subscription-key"@ ==> value == endpoint.subscription_key
            &&& name == "api-version"@ ==> value == endpoint.api_version
            &&& name == "api-token"@ ==> value == api_token
            &&& name == "refresh-token"@ ==> value == refresh_token
            &&& name == "subscription-key"@ || name == "api-version"@ || name == "api-token"@
                || name == "refresh-token"@
            &&& forall|j: int| 0 <= j < 4 && j != i ==> (#[trigger] request.headers[j]).0 != name
        }),
{
    lemma_header_names_differ();
}

/// Two requests of endpoints are the same only if all that goes into them is:
/// nothing of an endpoint or of the tokens is left out.
pub proof fn law_request_keeps_everything(
    endpoint: EndpointView,
    api_token: Seq<char>,
    refresh_token: Seq<char>,
    other: EndpointView,
    other_api_token: Seq<char>,
    other_refresh_token: Seq<char>,
)
    requires
        endpoint.request(api_token, refresh_token) == other.request(
            other_api_token,
            other_refresh_token,
        ),
    ensures
        endpoint == other,
        api_token == other_api_token,
        refresh_token == other_refresh_token,
{
    let request = endpoint.request(api_token, refresh_token);
    assert(request.headers[0].1 == endpoint.subscription_key);
    assert(request.headers[1].1 == endpoint.api_version);
    assert(request.headers[2].1 == api_token);
    assert(request.headers[3].1 == refresh_token);
}

/// What stands for a request, tokens and an endpoint in contracts is what they
/// hold.
pub proof fn law_views_hold_the_fields(
    request: RefreshRequest,
    state: OAuthTokenState,
    endpoint: RefreshEndpoint,
)
    ensures
        request@.url == request.url@,
        request@.headers.len() == request.headers@.len(),
        forall|i: int|
            0 <= i < request.headers@.len() ==> #[trigger] request@.headers[i] == (
                request.headers@[i].0@,
                request.headers@[i].1@,
            ),
        state@.api_token == state.api_token@,
        state@.refresh_token == state.refresh_token@,
        state@.expires_in == state.expires_in,
        endpoint@.url == endpoint.url@,
        endpoint@.subscription_key == endpoint.subscription_key@,
        endpoint@.api_version == endpoint.api_version@,
{
}

impl RefreshEndpoint {
    /// The request that trades these tokens for new ones.
    pub fn request(&self, api_token: &str, refresh_token: &str) -> (request: RefreshRequest)
        ensures
            request@ == self@.request(api_token@, refresh_token@),
            request.url@ == self.url@,
            request.headers@.len() == 4,
            has_header(request, "subscription-key"@, self.subscription_key@),
            has_header(request, "api-version"@, self.api_version@),
            has_header(request, "api-token"@, api_token@),
            has_header(request, "refresh-token"@, refresh_token@),
            // and a header of one of these names has no other value
            forall|i: int|
                0 <= i < request.headers@.len() ==> {
                    let header = #[trigger] request.headers@[i];
                    ||| header.0@ == "subscription-key"@ && header.1@ == self.subscription_key@
                    ||| header.0@ == "api-version"@ && header.1@ == self.api_version@
                    ||| header.0@ == "api-token"@ && header.1@ == api_token@
                    ||| header.0@ == "refresh-token"@ && header.1@ == refresh_token@
                },
    {
        let mut headers: Vec<(String, String)> = Vec::new();
        headers.push(("subscription-key".to_owned(), self.subscription_key.clone()));
        headers.push(("api-version".to_owned(), self.api_version.clone()));
        headers.push(("api-token".to_owned(), api_token.to_owned()));
        headers.push(("refresh-token".to_owned(), refresh_token.to_owned()));
        let request = RefreshRequest { url: self.url.clone(), headers };
        assert(request@.headers =~= self@.request(api_token@, refresh_token@).headers);
        assert(request.headers@[0].0@ == "subscription-key"@);
        assert(request.headers@[1].0@ == "api-version"@);
        assert(request.headers@[2].0@ == "api-token"@);
        assert(request.headers@[3].0@ == "refresh-token"@);
        request
    }
}

/// A status that says that the request succeeded.
#[derive(Debug, Clone, Copy, PartialEq, Eq)]
pub struct AcceptedStatus {
    status: HttpStatus,
}

impl AcceptedStatus {
    #[verifier::type_invariant]
    spec fn is_acceptance(self) -> bool {
        self.status.success()
    }

    /// The status that was accepted.
    pub closed spec fn status(self) -> HttpStatus {
        self.status
    }
}

/// A status other than success.
#[derive(Debug, Clone, Copy, PartialEq, Eq)]
pub struct RejectedStatus {
    status: HttpStatus,
}

impl RejectedStatus {
    #[verifier::type_invariant]
    spec fn is_rejection(self) -> bool {
        !self.status.success()
    }

    /// The status that was rejected.
    pub closed spec fn status(self) -> HttpStatus {
        self.status
    }
}

/// What the status of a response says of the rest of it.
#[derive(Debug, Clone, Copy, PartialEq, Eq)]
pub enum StatusCheck {
    /// The body holds tokens, as JSON.
    Accepted(AcceptedStatus),
    /// The body holds an explanation, as text.
    Rejected(RejectedStatus),
}

/// Looks at the status of a response.
pub fn check_status(status: HttpStatus) -> (r: StatusCheck)
    ensures
        200 <= status.code() <= 299 <==> r is Accepted,
        status.success() ==> (r matches StatusCheck::Accepted(accepted) && accepted.status()
            == status),
        !status.success() ==> (r matches StatusCheck::Rejected(rejected) && rejected.status()
            == status),
{
    if status.is_success() {
        StatusCheck::Accepted(AcceptedStatus { status })
    } else {
        StatusCheck::Rejected(RejectedStatus { status })
    }
}

/// What came back from the refresh endpoint.
#[derive(Debug, PartialEq, Eq)]
pub enum RefreshReply {
    /// No response came; `cause` says why.
    NoResponse { cause: String },
    /// The status was rejected; the text of the body, if it could be read.
    Rejected { status: RejectedStatus, body: Option<String> },
    /// The status was accepted, but the body could not be read as tokens;
    /// `cause` says why.
    Unreadable { status: AcceptedStatus, cause: String },
    /// The status was accepted, and the body holds this.
    Accepted { status: AcceptedStatus, response: OAuthRefreshResponse },
}

/// The time to live that is kept with the tokens: 0 stands for none.
pub open spec fn kept_ttl(expires_in: Option<u64>) -> u64 {
    match expires_in {
        Some(secs) => secs,
        None => 0,
    }
}

/// What came of a call with this reply: new tokens if the endpoint sent some,
/// else why it did not.
pub open spec fn reply_outcome(reply: RefreshReply) -> Result<TokenView, OAuthErrorView> {
    match reply {
        RefreshReply::NoResponse { cause } => Err(OAuthErrorView::Client { cause: cause@ }),
        RefreshReply::Rejected { status, body } => Err(
            OAuthErrorView::RefreshFailed {
                status: status.status().code(),
                body: match body {
                    Some(text) => text@,
                    None => Seq::empty(),
                },
            },
        ),
        RefreshReply::Unreadable { cause, .. } => Err(OAuthErrorView::Client { cause: cause@ }),
        RefreshReply::Accepted { response, .. } => Ok(
            TokenView {
                api_token: response.api_token@,
                refresh_token: response.refresh_token@,
                expires_in: kept_ttl(response.expires_in),
            },
        ),
    }
}

/// Evaluates a call of the refresh endpoint. Tokens come from a response with
/// a status of success only, and no such response counts as refused.
pub fn refresh_once(reply: RefreshReply) -> (r: Result<OAuthTokenState, OAuthError>)
    ensures
        outcome(r) == reply_outcome(reply),
        r is Ok ==> (reply matches RefreshReply::Accepted { status, .. }
            && status.status().success()),
        r matches Err(OAuthError::RefreshFailed { status, .. }) ==> !status.success(),
        match reply {
            RefreshReply::NoResponse { cause } => r == Err::<OAuthTokenState, OAuthError>(
                OAuthError::Client { cause },
            ),
            RefreshReply::Unreadable { status: _, cause } => r == Err::<
                OAuthTokenState,
                OAuthError,
            >(OAuthError::Client { cause }),
            RefreshReply::Rejected { status, body } => {
                &&& r matches Err(OAuthError::RefreshFailed { status: refused, body: text })
                &&& refused == status.status()
                &&& body matches Some(given) ==> text == given
                &&& body is None ==> text@.len() == 0
            },
            RefreshReply::Accepted { status: _, response } => {
                &&& r matches Ok(state)
                &&& state.api_token == response.api_token
                &&& state.refresh_token == response.refresh_token
                &&& response.expires_in matches Some(secs) ==> state.expires_in == secs
                &&& response.expires_in is None ==> state.expires_in == 0
            },
        },
{
    match reply {
        RefreshReply::NoResponse { cause } => Err(OAuthError::Client { cause }),
        RefreshReply::Rejected { status, body } => {
            proof {
                use_type_invariant(&status);
            }
            let body = match body {
                Some(text) => text,
                None => String::new(),
            };
            Err(OAuthError::RefreshFailed { status: status.status, body })
        },
        RefreshReply::Unreadable { cause, .. } => Err(OAuthError::Client { cause }),
        RefreshReply::Accepted { status, response } => {
            proof {
                use_type_invariant(&status);
            }
            Ok(
                OAuthTokenState {
                    api_token: response.api_token,
                    refresh_token: response.refresh_token,
                    expires_in: match response.expires_in {
                        Some(secs) => secs,
                        None => 0,
                    },
                },
            )
        },
    }
}

/// An accepted reply gives its own tokens, with the time to live that it names,
/// whatever that is and whether or not the server calls the tokens new.
pub proof fn law_accepted_reply_is_kept(
    status: AcceptedStatus,
    response: OAuthRefreshResponse,
    secs: u64,
)
    requires
        response.expires_in == Some(secs),
    ensures
        reply_outcome(RefreshReply::Accepted { status, response }) matches Ok(tokens) && {
            &&& tokens.api_token == response.api_token@
            &&& tokens.refresh_token == response.refresh_token@
            &&& tokens.expires_in == secs
        },
{
}

/// A reply gives tokens only if it was accepted; one that was refused gives the
/// status and the whole body, and a failure of the client its whole cause.
pub proof fn law_other_replies_are_errors(
    status: RejectedStatus,
    accepted: AcceptedStatus,
    text: String,
)
    ensures
        reply_outcome(RefreshReply::Rejected { status, body: Some(text) }) == Err::<
            TokenView,
            OAuthErrorView,
        >(OAuthErrorView::RefreshFailed { status: status.status().code(), body: text@ }),
        reply_outcome(RefreshReply::Rejected { status, body: None }) == Err::<
            TokenView,
            OAuthErrorView,
        >(OAuthErrorView::RefreshFailed { status: status.status().code(), body: Seq::empty() }),
        reply_outcome(RefreshReply::NoResponse { cause: text }) == Err::<
            TokenView,
            OAuthErrorView,
        >(OAuthErrorView::Client { cause: text@ }),
        reply_outcome(RefreshReply::Unreadable { status: accepted, cause: text }) == Err::<
            TokenView,
            OAuthErrorView,
        >(OAuthErrorView::Client { cause: text@ }),
{
}

/// Tokens that come without a usable time to live are accepted, and the next
/// refresh then goes by the fallback interval.
pub proof fn law_missing_ttl_falls_back(
    status: AcceptedStatus,
    response: OAuthRefreshResponse,
    fallback_interval: u64,
)
    requires
        response.expires_in is None || response.expires_in == Some(0u64),
    ensures
        reply_outcome(RefreshReply::Accepted { status, response }) matches Ok(tokens) && {
            &&& tokens.api_token == response.api_token@
            &&& tokens.refresh_token == response.refresh_token@
            &&& effective_ttl(tokens.expires_in, fallback_interval) == fallback_interval
        },
{
}

} // verus!
