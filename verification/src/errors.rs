//! The error type shared by the whole service, and how each error is answered.
use vstd::prelude::*;

use crate::text::concat2;

verus! {

/// A failed request or operation.
#[derive(Debug)]
pub enum AppError {
    Qobuz(String),
    Lastfm(String),
    Ai(String),
    LinkPlay(String),
    Unauthorized,
    NotFound,
    BadRequest(String),
    Internal(String),
    /// A service the request needs cannot answer now; the client may retry.
    Unavailable(String),
    Other(anyhow::Error),
}

/// The HTTP status an error is answered with.
pub open spec fn status_of(e: AppError) -> u16 {
    match e {
        AppError::BadRequest(_) => 400,
        AppError::Unauthorized => 401,
        AppError::NotFound => 404,
        AppError::Unavailable(_) => 503,
        _ => 500,
    }
}

/// The `error` text of the JSON body an error is answered with.
pub open spec fn response_message_of(e: AppError) -> Seq<char> {
    match e {
        AppError::Qobuz(m) => m@,
        AppError::Lastfm(m) => m@,
        AppError::Ai(m) => m@,
        AppError::LinkPlay(m) => m@,
        AppError::Internal(m) => m@,
        AppError::Unavailable(m) => m@,
        AppError::BadRequest(m) => m@,
        AppError::Unauthorized => "Unauthorized"@,
        AppError::NotFound => "Not found"@,
        AppError::Other(_) => "Internal server error"@,
    }
}

/// Errors that are logged when they are answered.
pub open spec fn is_logged(e: AppError) -> bool {
    match e {
        AppError::Qobuz(_) | AppError::Lastfm(_) | AppError::Ai(_) | AppError::LinkPlay(_)
        | AppError::Internal(_) | AppError::Unavailable(_) | AppError::Other(_) => true,
        _ => false,
    }
}

/// The human-readable description of an error (its `Display` text), for every
/// variant but `Other`, whose text is that of the wrapped error.
pub open spec fn description_of(e: AppError) -> Seq<char> {
    match e {
        AppError::Qobuz(m) => "Qobuz API error: "@ + m@,
        AppError::Lastfm(m) => "Last.fm API error: "@ + m@,
        AppError::Ai(m) => "AI provider error: "@ + m@,
        AppError::LinkPlay(m) => "LinkPlay error: "@ + m@,
        AppError::Unauthorized => "Authentication required"@,
        AppError::NotFound => "Resource not found"@,
        AppError::BadRequest(m) => "Bad request: "@ + m@,
        AppError::Internal(m) => "Internal error: "@ + m@,
        AppError::Unavailable(m) => "Service unavailable: "@ + m@,
        AppError::Other(_) => Seq::empty(),
    }
}

/// The text of an `anyhow` error (its `Display` form).
#[verifier::external_body]
fn anyhow_text(e: &anyhow::Error) -> String {
    e.to_string()
}

impl AppError {
    /// HTTP status code of the answer to this error.
    pub fn status_code(&self) -> (r: u16)
        ensures
            r == status_of(*self),
    {
        match self {
            AppError::BadRequest(_) => 400,
            AppError::Unauthorized => 401,
            AppError::NotFound => 404,
            AppError::Unavailable(_) => 503,
            _ => 500,
        }
    }

    /// Text of the `error` field of the answer to this error.
    pub fn response_message(&self) -> (r: String)
        ensures
            r@ == response_message_of(*self),
    {
        match self {
            AppError::Qobuz(m) => m.clone(),
            AppError::Lastfm(m) => m.clone(),
            AppError::Ai(m) => m.clone(),
            AppError::LinkPlay(m) => m.clone(),
            AppError::Internal(m) => m.clone(),
            AppError::Unavailable(m) => m.clone(),
            AppError::BadRequest(m) => m.clone(),
            AppError::Unauthorized => "Unauthorized".to_owned(),
            AppError::NotFound => "Not found".to_owned(),
            AppError::Other(_) => "Internal server error".to_owned(),
        }
    }

    /// Whether answering this error logs it.
    pub fn should_log(&self) -> (r: bool)
        ensures
            r == is_logged(*self),
    {
        match self {
            AppError::Qobuz(_) | AppError::Lastfm(_) | AppError::Ai(_) | AppError::LinkPlay(_)
            | AppError::Internal(_) | AppError::Unavailable(_) | AppError::Other(_) => true,
            _ => false,
        }
    }

    /// The description of this error.
    pub fn describe(&self) -> (r: String)
        ensures
            !(*self is Other) ==> r@ == description_of(*self),
    {
        match self {
            AppError::Qobuz(m) => concat2("Qobuz API error: ", m.as_str()),
            AppError::Lastfm(m) => concat2("Last.fm API error: ", m.as_str()),
            AppError::Ai(m) => concat2("AI provider error: ", m.as_str()),
            AppError::LinkPlay(m) => concat2("LinkPlay error: ", m.as_str()),
            AppError::Unauthorized => "Authentication required".to_owned(),
            AppError::NotFound => "Resource not found".to_owned(),
            AppError::BadRequest(m) => concat2("Bad request: ", m.as_str()),
            AppError::Internal(m) => concat2("Internal error: ", m.as_str()),
            AppError::Unavailable(m) => concat2("Service unavailable: ", m.as_str()),
            AppError::Other(e) => anyhow_text(e),
        }
    }
}

} // verus!
