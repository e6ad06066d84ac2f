//! The response envelope: a two-digit code, a message that is either a
//! plain text or a what/why/how explanation, and an optional payload.

use vstd::prelude::*;
use vstd::string::StringExecFns;

use crate::errors::AppError;
use crate::errors::AppResult;
use crate::utils::str_eq;

verus! {

/// The code of every successful response.
pub const CODE_SUCCESS: &'static str = "00";

/// The code of every failed response.
pub const CODE_FAILURE: &'static str = "99";

/// A response message: plain text on success, a three-field
/// explanation on failure.
#[derive(Clone, Debug, PartialEq)]
pub enum ApiMessage {
    Text(String),
    Detail { what: String, why: String, how: String },
}

/// The envelope around every caller-facing result.
#[derive(Clone, Debug)]
pub struct ApiResponse<T> {
    pub code: &'static str,
    pub message: ApiMessage,
    pub data: Option<T>,
}

/// The generic why/how texts attached to a bare failure message.
pub open spec fn spec_generic_why() -> Seq<char> {
    "Something went wrong while processing your request."@
}

pub open spec fn spec_generic_how() -> Seq<char> {
    "Please try again in a moment. If the problem continues, contact support with a brief description of what you were doing just before this happened."@
}

/// The what/why/how explanation derived from an error's kind.
pub open spec fn spec_error_detail(err: AppError) -> (Seq<char>, Seq<char>, Seq<char>) {
    match err {
        AppError::Config(m) => (
            "Configuration error: "@ + m@,
            "The application configuration seems incomplete or contains an invalid value."@,
            "Review your app settings or environment variables and correct any typos or missing values. If unsure, restore the default config and try again."@,
        ),
        AppError::Db(m) => (
            "Database error: "@ + m@,
            "The app could not talk to the database or the database refused the request."@,
            "Please ensure the database is running and reachable. Check the host, port, username/password, and network connectivity. Then try again."@,
        ),
        AppError::Web(m) => (
            "Request error: "@ + m@,
            "Your request could not be completed due to a server-side issue."@,
            "Please retry in a moment. If it keeps happening, contact support and include the time of the error and what you tried to do."@,
        ),
        AppError::Other(m) => (
            "Unexpected error: "@ + m@,
            "An unexpected problem occurred."@,
            "Please try again. If the issue persists, contact support with a short description of the action you took and this error message."@,
        ),
    }
}

/// Renders an error as its what/why/how explanation.
pub fn map_app_error_to_detail(err: &AppError) -> (r: (String, String, String))
    ensures
        r.0@ == spec_error_detail(*err).0,
        r.1@ == spec_error_detail(*err).1,
        r.2@ == spec_error_detail(*err).2,
{
    match err {
        AppError::Config(msg) => (
            String::from_str("Configuration error: ").concat(msg.as_str()),
            "The application configuration seems incomplete or contains an invalid value.".to_owned(),
            "Review your app settings or environment variables and correct any typos or missing values. If unsure, restore the default config and try again.".to_owned(),
        ),
        AppError::Db(msg) => (
            String::from_str("Database error: ").concat(msg.as_str()),
            "The app could not talk to the database or the database refused the request.".to_owned(),
            "Please ensure the database is running and reachable. Check the host, port, username/password, and network connectivity. Then try again.".to_owned(),
        ),
        AppError::Web(msg) => (
            String::from_str("Request error: ").concat(msg.as_str()),
            "Your request could not be completed due to a server-side issue.".to_owned(),
            "Please retry in a moment. If it keeps happening, contact support and include the time of the error and what you tried to do.".to_owned(),
        ),
        AppError::Other(msg) => (
            String::from_str("Unexpected error: ").concat(msg.as_str()),
            "An unexpected problem occurred.".to_owned(),
            "Please try again. If the issue persists, contact support with a short description of the action you took and this error message.".to_owned(),
        ),
    }
}

impl<T> ApiResponse<T> {
    /// A successful response with a text message and optional payload.
    pub fn ok(message: &str, data: Option<T>) -> (r: Self)
        ensures
            r.code@ == "00"@,
            r.message matches ApiMessage::Text(t) && t@ == message@,
            r.data == data,
    {
        ApiResponse { code: CODE_SUCCESS, message: ApiMessage::Text(message.to_owned()), data }
    }

    /// A successful response carrying a payload.
    pub fn success_with(message: &str, data: T) -> (r: Self)
        ensures
            r.code@ == "00"@,
            r.message matches ApiMessage::Text(t) && t@ == message@,
            r.data matches Some(d) && d == data,
    {
        ApiResponse {
            code: CODE_SUCCESS,
            message: ApiMessage::Text(message.to_owned()),
            data: Some(data),
        }
    }

    /// A failed response whose explanation carries the message and the
    /// generic why/how texts.
    pub fn failure(message: &str) -> (r: Self)
        ensures
            r.code@ == "99"@,
            r.message matches ApiMessage::Detail { what, why, how } && what@ == message@ && why@
                == spec_generic_why() && how@ == spec_generic_how(),
            r.data is None,
    {
        ApiResponse {
            code: CODE_FAILURE,
            message: ApiMessage::Detail {
                what: message.to_owned(),
                why: "Something went wrong while processing your request.".to_owned(),
                how: "Please try again in a moment. If the problem continues, contact support with a brief description of what you were doing just before this happened.".to_owned(),
            },
            data: None,
        }
    }

    /// A failed response with a full what/why/how explanation.
    pub fn failure_detail(what: &str, why: &str, how: &str) -> (r: Self)
        ensures
            r.code@ == "99"@,
            r.message matches ApiMessage::Detail { what: w1, why: w2, how: w3 } && w1@ == what@
                && w2@ == why@ && w3@ == how@,
            r.data is None,
    {
        ApiResponse {
            code: CODE_FAILURE,
            message: ApiMessage::Detail {
                what: what.to_owned(),
                why: why.to_owned(),
                how: how.to_owned(),
            },
            data: None,
        }
    }

    /// Whether the response carries the success code.
    pub fn is_success(&self) -> (r: bool)
        ensures
            r == (self.code@ == "00"@),
    {
        proof {
            reveal_strlit("00");
        }
        str_eq(self.code, CODE_SUCCESS)
    }

    /// Wraps a result: the value under the success message, or the
    /// error rendered as a what/why/how explanation.
    pub fn from_result(res: AppResult<T>, success_message: &str) -> (r: Self)
        ensures
            match res {
                Ok(v) => r.code@ == "00"@ && (r.message matches ApiMessage::Text(t) && t@
                    == success_message@) && (r.data matches Some(d) && d == v),
                Err(e) => r.code@ == "99"@ && (r.message matches ApiMessage::Detail {
                    what,
                    why,
                    how,
                } && what@ == spec_error_detail(e).0 && why@ == spec_error_detail(e).1 && how@
                    == spec_error_detail(e).2) && r.data is None,
            },
    {
        match res {
            Ok(v) => Self::success_with(success_message, v),
            Err(e) => {
                let (what, why, how) = map_app_error_to_detail(&e);
                Self::failure_detail(what.as_str(), why.as_str(), how.as_str())
            },
        }
    }

    /// Wraps an optional value: success with it, or a bare failure.
    pub fn from_option(opt: Option<T>, some_message: &str, none_message: &str) -> (r: Self)
        ensures
            match opt {
                Some(v) => r.code@ == "00"@ && (r.message matches ApiMessage::Text(t) && t@
                    == some_message@) && (r.data matches Some(d) && d == v),
                None => r.code@ == "99"@ && (r.message matches ApiMessage::Detail {
                    what,
                    why,
                    how,
                } && what@ == none_message@ && why@ == spec_generic_why() && how@
                    == spec_generic_how()) && r.data is None,
            },
    {
        match opt {
            Some(v) => Self::success_with(some_message, v),
            None => Self::failure(none_message),
        }
    }
}

impl ApiResponse<()> {
    /// A successful response with no payload.
    pub fn success(message: &str) -> (r: Self)
        ensures
            r.code@ == "00"@,
            r.message matches ApiMessage::Text(t) && t@ == message@,
            r.data is None,
    {
        ApiResponse::ok(message, None)
    }

    /// A failed response explaining the given error.
    pub fn from_error(err: &AppError) -> (r: Self)
        ensures
            r.code@ == "99"@,
            r.message matches ApiMessage::Detail { what, why, how } && what@ == spec_error_detail(
                *err,
            ).0 && why@ == spec_error_detail(*err).1 && how@ == spec_error_detail(*err).2,
            r.data is None,
    {
        let (what, why, how) = map_app_error_to_detail(err);
        Self::failure_detail(what.as_str(), why.as_str(), how.as_str())
    }
}

} // verus!
