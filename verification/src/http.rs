//! HTTP status codes.

use vstd::prelude::*;

verus! {

/// What follows the number in the text of a status code: what
/// `reqwest::StatusCode` displays after the three digits and a space.
pub uninterp spec fn status_phrase(code: u16) -> Seq<char>;

/// The three decimal digits of a status code.
pub open spec fn status_digits(code: u16) -> Seq<char> {
    seq![
        ('0' as u16 + code / 100) as char,
        ('0' as u16 + code / 10 % 10) as char,
        ('0' as u16 + code % 10) as char,
    ]
}

/// The text of a status code: its digits, a space, and its phrase.
pub open spec fn status_text(code: u16) -> Seq<char> {
    status_digits(code) + seq![' '] + status_phrase(code)
}

/// The digits of a status code are decimal digits, and read as a number they are
/// the code.
pub proof fn law_digits_read_as_code(code: u16)
    requires
        100 <= code <= 999,
    ensures
        status_digits(code).len() == 3,
        forall|i: int| 0 <= i < 3 ==> '0' <= #[trigger] status_digits(code)[i] <= '9',
        (status_digits(code)[0] as int - 48) * 100 + (status_digits(code)[1] as int - 48) * 10 + (
        status_digits(code)[2] as int - 48) == code,
{
}

/// The `Display` of `reqwest::StatusCode`: the number in decimal, a space, and
/// a phrase that depends on the number alone. `StatusCode::from_u16` refuses
/// numbers outside of 100 to 999.
#[verifier::external_body]
fn display_status(code: u16) -> (text: String)
    requires
        100 <= code <= 999,
    ensures
        text@ == status_digits(code) + seq![' '] + status_phrase(code),
{
    reqwest::StatusCode::from_u16(code).unwrap().to_string()
}

/// A status code of an HTTP response, from 100 to 999.
#[derive(Debug, Clone, Copy, PartialEq, Eq)]
pub struct HttpStatus {
    code: u16,
}

impl HttpStatus {
    #[verifier::type_invariant]
    spec fn in_range(self) -> bool {
        100 <= self.code <= 999
    }

    /// The number of this status.
    pub closed spec fn code(self) -> u16 {
        self.code
    }

    /// Whether this status says that the request succeeded.
    pub open spec fn success(self) -> bool {
        200 <= self.code() <= 299
    }

    /// The status with this number, if it is one.
    pub fn from_u16(code: u16) -> (r: Option<HttpStatus>)
        ensures
            r is Some <==> 100 <= code <= 999,
            r matches Some(status) ==> status.code() == code,
    {
        if 100 <= code && code <= 999 {
            Some(HttpStatus { code })
        } else {
            None
        }
    }

    /// The number of this status.
    pub fn as_u16(self) -> (code: u16)
        ensures
            code == self.code(),
            100 <= code <= 999,
    {
        proof {
            use_type_invariant(&self);
        }
        self.code
    }

    /// Whether this status says that the request succeeded.
    pub fn is_success(self) -> (r: bool)
        ensures
            r == self.success(),
            r <==> 200 <= self.code() <= 299,
    {
        200 <= self.code && self.code <= 299
    }

    /// The number of this status and its phrase, such as `401 Unauthorized`.
    pub fn text(self) -> (text: String)
        ensures
            text@ == status_text(self.code()),
            text@ == status_digits(self.code()) + seq![' '] + status_phrase(self.code()),
    {
        proof {
            use_type_invariant(&self);
        }
        display_status(self.code)
    }
}

} // verus!
