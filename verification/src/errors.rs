//! Tagged error kinds carried by every fallible operation of the library.

use vstd::prelude::*;
use vstd::string::StringExecFns;

verus! {

/// An application error: a tag naming the failing subsystem and a
/// human-readable message.
#[derive(Debug)]
pub enum AppError {
    Config(String),
    Db(String),
    Web(String),
    Other(String),
}

pub type AppResult<T> = Result<T, AppError>;

impl AppError {
    /// The message carried by the error, whatever its tag.
    pub open spec fn spec_msg(&self) -> Seq<char> {
        match self {
            AppError::Config(m) => m@,
            AppError::Db(m) => m@,
            AppError::Web(m) => m@,
            AppError::Other(m) => m@,
        }
    }

    pub fn config(msg: &str) -> (e: AppError)
        ensures
            e is Config && e.spec_msg() == msg@,
    {
        AppError::Config(msg.to_owned())
    }

    pub fn db(msg: &str) -> (e: AppError)
        ensures
            e is Db && e.spec_msg() == msg@,
    {
        AppError::Db(msg.to_owned())
    }

    pub fn web(msg: &str) -> (e: AppError)
        ensures
            e is Web && e.spec_msg() == msg@,
    {
        AppError::Web(msg.to_owned())
    }

    pub fn other(msg: &str) -> (e: AppError)
        ensures
            e is Other && e.spec_msg() == msg@,
    {
        AppError::Other(msg.to_owned())
    }

    /// Renders the error as `"<Tag>: <message>"`.
    pub fn to_message(&self) -> (r: String)
        ensures
            r@ == match self {
                AppError::Config(m) => "Config: "@ + m@,
                AppError::Db(m) => "Db: "@ + m@,
                AppError::Web(m) => "Web: "@ + m@,
                AppError::Other(m) => "Other: "@ + m@,
            },
    {
        match self {
            AppError::Config(m) => String::from_str("Config: ").concat(m.as_str()),
            AppError::Db(m) => String::from_str("Db: ").concat(m.as_str()),
            AppError::Web(m) => String::from_str("Web: ").concat(m.as_str()),
            AppError::Other(m) => String::from_str("Other: ").concat(m.as_str()),
        }
    }
}

} // verus!
