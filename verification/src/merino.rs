//! Errors of the curated recommendations client, and how each is shown to
//! the application and reported.

use crate::store::opt_text;
use vstd::prelude::*;
use vstd::string::*;

verus! {

/// What the application is told when a request for recommendations fails.
#[derive(Clone, Debug, PartialEq, Eq)]
pub enum CuratedRecommendationsApiError {
    /// The request did not reach the server or the answer did not arrive.
    Network { reason: String },
    /// Anything else, with the HTTP status where there is one.
    Other { code: Option<u16>, reason: String },
}

/// An error for the application, as plain values.
pub enum ApiErrorView {
    Network { reason: Seq<char> },
    Other { code: Option<u16>, reason: Seq<char> },
}

impl View for CuratedRecommendationsApiError {
    type V = ApiErrorView;

    open spec fn view(&self) -> ApiErrorView {
        match self {
            CuratedRecommendationsApiError::Network { reason } => ApiErrorView::Network {
                reason: reason@,
            },
            CuratedRecommendationsApiError::Other { code, reason } => ApiErrorView::Other {
                code: *code,
                reason: reason@,
            },
        }
    }
}

/// What went wrong inside the client. Errors of other libraries are held by
/// their text.
#[derive(Clone, Debug, PartialEq, Eq)]
pub enum Error {
    UrlParse(String),
    Request(String),
    Json(String),
    Validation { code: u16, message: String },
    BadRequest { code: u16, message: String },
    Server { code: u16, message: String },
    Unexpected { code: u16, message: String },
}

/// An error of the client, as plain values.
pub enum ErrorView {
    UrlParse(Seq<char>),
    Request(Seq<char>),
    Json(Seq<char>),
    Validation { code: u16, message: Seq<char> },
    BadRequest { code: u16, message: Seq<char> },
    Server { code: u16, message: Seq<char> },
    Unexpected { code: u16, message: Seq<char> },
}

impl View for Error {
    type V = ErrorView;

    open spec fn view(&self) -> ErrorView {
        match self {
            Error::UrlParse(m) => ErrorView::UrlParse(m@),
            Error::Request(m) => ErrorView::Request(m@),
            Error::Json(m) => ErrorView::Json(m@),
            Error::Validation { code, message } => ErrorView::Validation {
                code: *code,
                message: message@,
            },
            Error::BadRequest { code, message } => ErrorView::BadRequest {
                code: *code,
                message: message@,
            },
            Error::Server { code, message } => ErrorView::Server { code: *code, message: message@ },
            Error::Unexpected { code, message } => ErrorView::Unexpected {
                code: *code,
                message: message@,
            },
        }
    }
}

/// How loudly an error is logged.
#[derive(Clone, Copy, Debug, PartialEq, Eq, Structural)]
pub enum LogLevel {
    Warn,
    Error,
}

/// How an error is handled: what the application is told, whether it is
/// logged, and under which class it is reported, if at all.
#[derive(Clone, Debug, PartialEq, Eq)]
pub struct ErrorHandling {
    pub err: CuratedRecommendationsApiError,
    pub log_level: Option<LogLevel>,
    pub report_class: Option<String>,
}

/// The handling of an error, as plain values.
pub struct ErrorHandlingView {
    pub err: ApiErrorView,
    pub log_level: Option<LogLevel>,
    pub report_class: Option<Seq<char>>,
}

impl View for ErrorHandling {
    type V = ErrorHandlingView;

    open spec fn view(&self) -> ErrorHandlingView {
        ErrorHandlingView {
            err: self.err@,
            log_level: self.log_level,
            report_class: opt_text(self.report_class),
        }
    }
}

impl ErrorView {
    /// The text that describes the error.
    pub open spec fn text(self) -> Seq<char> {
        match self {
            ErrorView::UrlParse(m) => "URL parse error: "@ + m,
            ErrorView::Request(m) => "Error sending request: "@ + m,
            ErrorView::Json(m) => "JSON error: "@ + m,
            ErrorView::Validation { message, .. } => "Validation error: "@ + message,
            ErrorView::BadRequest { message, .. } => "Bad request: "@ + message,
            ErrorView::Server { message, .. } => "Server error: "@ + message,
            ErrorView::Unexpected { message, .. } => "Unexpected error: "@ + message,
        }
    }

    /// How the error is handled: a failed request is a network error and is
    /// logged as a warning; an error with an HTTP status keeps the status;
    /// validation errors and what was not expected are reported.
    pub open spec fn handling(self) -> ErrorHandlingView {
        match self {
            ErrorView::Request(_) => ErrorHandlingView {
                err: ApiErrorView::Network { reason: self.text() },
                log_level: Some(LogLevel::Warn),
                report_class: None,
            },
            ErrorView::Validation { code, .. } => ErrorHandlingView {
                err: ApiErrorView::Other { code: Some(code), reason: self.text() },
                log_level: Some(LogLevel::Error),
                report_class: Some("merino-validation"@),
            },
            ErrorView::Server { code, .. } => ErrorHandlingView {
                err: ApiErrorView::Other { code: Some(code), reason: self.text() },
                log_level: None,
                report_class: None,
            },
            ErrorView::Unexpected { code, .. } => ErrorHandlingView {
                err: ApiErrorView::Other { code: Some(code), reason: self.text() },
                log_level: Some(LogLevel::Error),
                report_class: Some("merino-unexpected"@),
            },
            ErrorView::BadRequest { code, .. } => ErrorHandlingView {
                err: ApiErrorView::Other { code: Some(code), reason: self.text() },
                log_level: None,
                report_class: None,
            },
            _ => ErrorHandlingView {
                err: ApiErrorView::Other { code: None, reason: self.text() },
                log_level: Some(LogLevel::Error),
                report_class: Some("merino-unexpected"@),
            },
        }
    }
}

/// `prefix` followed by `rest`.
fn prefixed(prefix: &str, rest: &String) -> (r: String)
    ensures
        r@ == prefix@ + rest@,
{
    prefix.to_owned().concat(rest.as_str())
}

impl Error {
    /// The text that describes the error.
    pub fn message(&self) -> (r: String)
        ensures
            r@ == self@.text(),
    {
        match self {
            Error::UrlParse(m) => prefixed("URL parse error: ", m),
            Error::Request(m) => prefixed("Error sending request: ", m),
            Error::Json(m) => prefixed("JSON error: ", m),
            Error::Validation { message, .. } => prefixed("Validation error: ", message),
            Error::BadRequest { message, .. } => prefixed("Bad request: ", message),
            Error::Server { message, .. } => prefixed("Server error: ", message),
            Error::Unexpected { message, .. } => prefixed("Unexpected error: ", message),
        }
    }

    /// How the error is handled.
    pub fn get_error_handling(&self) -> (r: ErrorHandling)
        ensures
            r@ == self@.handling(),
    {
        let reason = self.message();
        match self {
            Error::Request(_) => ErrorHandling {
                err: CuratedRecommendationsApiError::Network { reason },
                log_level: Some(LogLevel::Warn),
                report_class: None,
            },
            Error::Validation { code, .. } => ErrorHandling {
                err: CuratedRecommendationsApiError::Other { code: Some(*code), reason },
                log_level: Some(LogLevel::Error),
                report_class: Some("merino-validation".to_owned()),
            },
            Error::Server { code, .. } => ErrorHandling {
                err: CuratedRecommendationsApiError::Other { code: Some(*code), reason },
                log_level: None,
                report_class: None,
            },
            Error::Unexpected { code, .. } => ErrorHandling {
                err: CuratedRecommendationsApiError::Other { code: Some(*code), reason },
                log_level: Some(LogLevel::Error),
                report_class: Some("merino-unexpected".to_owned()),
            },
            Error::BadRequest { code, .. } => ErrorHandling {
                err: CuratedRecommendationsApiError::Other { code: Some(*code), reason },
                log_level: None,
                report_class: None,
            },
            _ => ErrorHandling {
                err: CuratedRecommendationsApiError::Other { code: None, reason },
                log_level: Some(LogLevel::Error),
                report_class: Some("merino-unexpected".to_owned()),
            },
        }
    }
}

} // verus!
