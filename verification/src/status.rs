//! HTTP status codes: which ones count as success, and how one is shown in
//! an error message.

use vstd::prelude::*;
use vstd::string::*;

verus! {

/// The text that the `http` crate displays for the status code `code`: the
/// number, a space and the code's reason phrase. Meaningful for the codes
/// that `http` accepts, `100..=999`.
pub uninterp spec fn status_display(code: u16) -> Seq<char>;

/// Whether `code` is one that the `http` crate accepts as a status code.
pub open spec fn is_status_code(code: u16) -> bool {
    100 <= code <= 999
}

/// Whether `code` reports success: the range `200..=299`.
pub open spec fn spec_is_success(code: u16) -> bool {
    200 <= code <= 299
}

/// What `status_text` returns for `code`.
pub open spec fn spec_status_text(code: u16) -> Option<Seq<char>> {
    if is_status_code(code) {
        Some(status_display(code))
    } else {
        None
    }
}

/// The detail reported for an upstream that answered with a status outside
/// the success range; `shown` is the displayed status, if it has one.
pub open spec fn spec_rejection_detail(shown: Option<Seq<char>>) -> Seq<char> {
    "Upstream server returned error status: "@ + match shown {
        Some(text) => text,
        None => "<unknown status code>"@,
    }
}

/// `http::StatusCode::from_u16` and the `Display` of the status code it
/// yields. Trusted, not proved: `from_u16` accepts exactly the codes
/// `100..=999`, and what is displayed depends on the code alone.
#[verifier::external_body]
pub(crate) fn status_text(code: u16) -> (shown: Option<String>)
    ensures
        shown.is_some() == is_status_code(code),
        shown matches Some(text) ==> text@ == status_display(code),
{
    match axum::http::StatusCode::from_u16(code) {
        Ok(status) => Some(status.to_string()),
        Err(_) => None,
    }
}

/// Whether a response with status `code` is a success.
pub fn is_success(code: u16) -> (success: bool)
    ensures
        success == spec_is_success(code),
{
    200 <= code && code <= 299
}

/// Builds the detail reported for a rejected response from the displayed
/// status.
pub fn rejection_detail(shown: Option<String>) -> (detail: String)
    ensures
        detail@ == spec_rejection_detail(
            match shown {
                Some(text) => Some(text@),
                None => None,
            },
        ),
{
    let mut detail = String::from_str("Upstream server returned error status: ");
    match shown {
        Some(text) => detail.append(text.as_str()),
        None => detail.append("<unknown status code>"),
    }
    detail
}

/// The detail reported for an upstream that answered with status `code`.
pub fn rejection_detail_for(code: u16) -> (detail: String)
    ensures
        detail@ == spec_rejection_detail(spec_status_text(code)),
{
    rejection_detail(status_text(code))
}

} // verus!
