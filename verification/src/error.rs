//! The error type of every fallible operation of the library.

use vstd::prelude::*;

verus! {

/// What went wrong, with a human-readable detail.
#[derive(Debug, Clone)]
pub enum AppError {
    /// A constraint of the store refused a write.
    Database(String),
    /// A network request failed or answered with an error status.
    Http(String),
    /// Reading or writing a local file failed.
    Io(String),
    /// A document could not be read as a feed, or no feed was found.
    FeedParse(String),
    /// The record asked for does not exist.
    NotFound(String),
    /// The record to add exists already.
    Duplicate(String),
    /// Anything else.
    Other(String),
}

/// The text shown for an error.
pub open spec fn error_message(e: AppError) -> Seq<char> {
    match e {
        AppError::Database(m) => "Database error: "@ + m@,
        AppError::Http(m) => "HTTP error: "@ + m@,
        AppError::Io(m) => "IO error: "@ + m@,
        AppError::FeedParse(m) => "Feed parse error: "@ + m@,
        AppError::NotFound(m) => m@,
        AppError::Duplicate(m) => m@,
        AppError::Other(m) => m@,
    }
}

/// The string `prefix` followed by `rest`.
pub fn concat_str(prefix: &str, rest: &str) -> (r: String)
    ensures
        r@ == prefix@ + rest@,
{
    let s = prefix.to_string();
    s.concat(rest)
}

impl AppError {
    /// The text shown for this error.
    pub fn message(&self) -> (r: String)
        ensures
            r@ == error_message(*self),
    {
        match self {
            AppError::Database(m) => concat_str("Database error: ", m.as_str()),
            AppError::Http(m) => concat_str("HTTP error: ", m.as_str()),
            AppError::Io(m) => concat_str("IO error: ", m.as_str()),
            AppError::FeedParse(m) => concat_str("Feed parse error: ", m.as_str()),
            AppError::NotFound(m) => m.clone(),
            AppError::Duplicate(m) => m.clone(),
            AppError::Other(m) => m.clone(),
        }
    }
}

} // verus!
