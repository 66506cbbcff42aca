//! What can go wrong when tokens are obtained.

use crate::http::{status_digits, status_phrase, status_text, HttpStatus};
use vstd::prelude::*;

verus! {

/// Why a manager could not be set up or a token not be refreshed.
#[derive(Debug, PartialEq, Eq)]
pub enum OAuthError {
    /// A required environment variable is not set.
    EnvVarNotSet { name: String },
    /// A required environment variable holds nothing but white space.
    EnvVarEmpty { name: String },
    /// The refresh endpoint answered with a status other than success.
    RefreshFailed { status: HttpStatus, body: String },
    /// The HTTP client failed: it could not be set up, no response came, or
    /// the response was not the JSON that it should be.
    Client { cause: String },
}

/// [`OAuthError`] with its text as sequences of characters.
pub enum OAuthErrorView {
    EnvVarNotSet { name: Seq<char> },
    EnvVarEmpty { name: Seq<char> },
    RefreshFailed { status: u16, body: Seq<char> },
    Client { cause: Seq<char> },
}

impl View for OAuthError {
    type V = OAuthErrorView;

    open spec fn view(&self) -> OAuthErrorView {
        match self {
            OAuthError::EnvVarNotSet { name } => OAuthErrorView::EnvVarNotSet { name: name@ },
            OAuthError::EnvVarEmpty { name } => OAuthErrorView::EnvVarEmpty { name: name@ },
            OAuthError::RefreshFailed { status, body } => OAuthErrorView::RefreshFailed {
                status: status.code(),
                body: body@,
            },
            OAuthError::Client { cause } => OAuthErrorView::Client { cause: cause@ },
        }
    }
}

/// A result with its value and its error as mathematical values.
pub open spec fn outcome<T: View>(result: Result<T, OAuthError>) -> Result<T::V, OAuthErrorView> {
    match result {
        Ok(value) => Ok(value@),
        Err(error) => Err(error@),
    }
}

impl OAuthErrorView {
    /// The message shown for this error.
    pub open spec fn message(self) -> Seq<char> {
        match self {
            OAuthErrorView::EnvVarNotSet { name } => "Required environment variable "@ + name
                + " is not set"@,
            OAuthErrorView::EnvVarEmpty { name } => "Required environment variable "@ + name
                + " is empty"@,
            OAuthErrorView::RefreshFailed { status, body } => "Token refresh failed with HTTP "@
                + status_text(status) + ": "@ + body,
            OAuthErrorView::Client { cause } => cause,
        }
    }
}

/// The message for a refused refresh, with this text for the status of the
/// response and this body.
pub fn refresh_failed_message(status_text: &str, body: &str) -> (text: String)
    ensures
        text@ == "Token refresh failed with HTTP "@ + status_text@ + ": "@ + body@,
{
    let mut text = "Token refresh failed with HTTP ".to_owned();
    text.append(status_text);
    text.append(": ");
    text.append(body);
    text
}

impl OAuthError {
    /// The message shown for this error.
    pub fn message(&self) -> (text: String)
        ensures
            text@ == self@.message(),
            match *self {
                OAuthError::EnvVarNotSet { name } => text@ == "Required environment variable "@
                    + name@ + " is not set"@,
                OAuthError::EnvVarEmpty { name } => text@ == "Required environment variable "@
                    + name@ + " is empty"@,
                OAuthError::RefreshFailed { status, body } => text@
                    == "Token refresh failed with HTTP "@ + (status_digits(status.code()) + seq![
                    ' ',
                ] + status_phrase(status.code())) + ": "@ + body@,
                OAuthError::Client { cause } => text@ == cause@,
            },
    {
        match self {
            OAuthError::EnvVarNotSet { name } => {
                let mut text = "Required environment variable ".to_owned();
                text.append(name.as_str());
                text.append(" is not set");
                text
            },
            OAuthError::EnvVarEmpty { name } => {
                let mut text = "Required environment variable ".to_owned();
                text.append(name.as_str());
                text.append(" is empty");
                text
            },
            OAuthError::RefreshFailed { status, body } => {
                refresh_failed_message(status.text().as_str(), body.as_str())
            },
            OAuthError::Client { cause } => cause.clone(),
        }
    }
}

/// What stands for an error and for a result in contracts is what they hold.
pub proof fn law_error_view_holds_the_fields<T: View>(
    name: String,
    status: HttpStatus,
    text: String,
    value: T,
    error: OAuthError,
)
    ensures
        (OAuthError::EnvVarNotSet { name })@ == (OAuthErrorView::EnvVarNotSet { name: name@ }),
        (OAuthError::EnvVarEmpty { name })@ == (OAuthErrorView::EnvVarEmpty { name: name@ }),
        (OAuthError::RefreshFailed { status, body: text })@ == (OAuthErrorView::RefreshFailed {
            status: status.code(),
            body: text@,
        }),
        (OAuthError::Client { cause: text })@ == (OAuthErrorView::Client { cause: text@ }),
        outcome(Ok::<T, OAuthError>(value)) == Ok::<T::V, OAuthErrorView>(value@),
        outcome(Err::<T, OAuthError>(error)) == Err::<T::V, OAuthErrorView>(error@),
{
}

/// The message for a refused refresh names the number of the status.
pub proof fn law_failure_message_names_status(status: u16, body: Seq<char>)
    ensures
        ("Token refresh failed with HTTP "@ + status_digits(status)).is_prefix_of(
            (OAuthErrorView::RefreshFailed { status, body }).message(),
        ),
{
    let head = "Token refresh failed with HTTP "@ + status_digits(status);
    let message = (OAuthErrorView::RefreshFailed { status, body }).message();
    let rest = seq![' '] + status_phrase(status) + ": "@ + body;
    assert(message =~= head + rest);
}

} // verus!
