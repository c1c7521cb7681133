//! The errors that the gateway answers with.

use vstd::prelude::*;
use crate::text::{clone_opt_string, opt_chars};

verus! {

/// Class of an error, as clients are told.
#[derive(Debug, Clone, Copy, PartialEq, Eq, Structural)]
pub enum ErrorType {
    InvalidRequestError,
    AuthenticationError,
    PermissionError,
    NotFoundError,
    RateLimitError,
    ServerError,
    ServiceUnavailableError,
}

impl ErrorType {
    /// The word for the class.
    pub open spec fn spec_word(self) -> Seq<char> {
        match self {
            ErrorType::InvalidRequestError => "invalid_request_error"@,
            ErrorType::AuthenticationError => "authentication_error"@,
            ErrorType::PermissionError => "permission_error"@,
            ErrorType::NotFoundError => "not_found_error"@,
            ErrorType::RateLimitError => "rate_limit_error"@,
            ErrorType::ServerError => "server_error"@,
            ErrorType::ServiceUnavailableError => "service_unavailable_error"@,
        }
    }

    /// The word for the class.
    pub fn word(self) -> (r: String)
        ensures
            r@ == self.spec_word(),
    {
        match self {
            ErrorType::InvalidRequestError => "invalid_request_error".to_owned(),
            ErrorType::AuthenticationError => "authentication_error".to_owned(),
            ErrorType::PermissionError => "permission_error".to_owned(),
            ErrorType::NotFoundError => "not_found_error".to_owned(),
            ErrorType::RateLimitError => "rate_limit_error".to_owned(),
            ErrorType::ServerError => "server_error".to_owned(),
            ErrorType::ServiceUnavailableError => "service_unavailable_error".to_owned(),
        }
    }
}

/// What an error tells the client.
#[derive(Debug)]
pub struct ErrorBody {
    pub message: String,
    pub error_type: ErrorType,
    pub param: Option<String>,
    pub code: Option<String>,
}

/// The mathematical value of an error body.
pub struct ErrorBodyView {
    pub message: Seq<char>,
    pub error_type: ErrorType,
    pub param: Option<Seq<char>>,
    pub code: Option<Seq<char>>,
}

impl View for ErrorBody {
    type V = ErrorBodyView;

    open spec fn view(&self) -> ErrorBodyView {
        ErrorBodyView {
            message: self.message@,
            error_type: self.error_type,
            param: opt_chars(self.param),
            code: opt_chars(self.code),
        }
    }
}

impl Clone for ErrorBody {
    fn clone(&self) -> (r: Self)
        ensures
            r@ == self@,
    {
        ErrorBody {
            message: self.message.clone(),
            error_type: self.error_type,
            param: clone_opt_string(&self.param),
            code: clone_opt_string(&self.code),
        }
    }
}

/// The document that carries an error to the client.
#[derive(Debug)]
pub struct ErrorResponse {
    pub error: ErrorBody,
}

/// An error with the status code of its answer.
#[derive(Debug)]
pub struct ApiError {
    pub status: u16,
    pub body: ErrorBody,
}

/// The mathematical value of an error.
pub struct ApiErrorView {
    pub status: u16,
    pub body: ErrorBodyView,
}

impl View for ApiError {
    type V = ApiErrorView;

    open spec fn view(&self) -> ApiErrorView {
        ApiErrorView { status: self.status, body: self.body@ }
    }
}

impl ApiErrorView {
    /// An error of the given status, class and code.
    pub open spec fn of(status: u16, message: Seq<char>, error_type: ErrorType, code: Seq<char>) -> ApiErrorView {
        ApiErrorView {
            status,
            body: ErrorBodyView { message, error_type, param: None, code: Some(code) },
        }
    }
}

impl ApiError {
    /// An error without parameter and code.
    pub fn new(status: u16, message: &str, error_type: ErrorType) -> (r: Self)
        ensures
            r@ == (ApiErrorView {
                status,
                body: ErrorBodyView { message: message@, error_type, param: None, code: None },
            }),
    {
        ApiError {
            status,
            body: ErrorBody { message: message.to_owned(), error_type, param: None, code: None },
        }
    }

    /// The error with the name of the parameter at fault.
    pub fn with_param(self, param: &str) -> (r: Self)
        ensures
            r@ == (ApiErrorView {
                body: ErrorBodyView { param: Some(param@), ..self@.body },
                ..self@
            }),
    {
        let mut e = self;
        e.body.param = Some(param.to_owned());
        e
    }

    /// The error with a code.
    pub fn with_code(self, code: &str) -> (r: Self)
        ensures
            r@ == (ApiErrorView { body: ErrorBodyView { code: Some(code@), ..self@.body }, ..self@ }),
    {
        let mut e = self;
        e.body.code = Some(code.to_owned());
        e
    }

    /// 400: the request is at fault.
    pub fn invalid_request(message: &str) -> (r: Self)
        ensures
            r@ == ApiErrorView::of(400, message@, ErrorType::InvalidRequestError, "invalid_value"@),
    {
        ApiError::new(400, message, ErrorType::InvalidRequestError).with_code("invalid_value")
    }

    /// 401: the caller did not prove who it is.
    pub fn authentication(message: &str) -> (r: Self)
        ensures
            r@ == ApiErrorView::of(401, message@, ErrorType::AuthenticationError, "invalid_api_key"@),
    {
        ApiError::new(401, message, ErrorType::AuthenticationError).with_code("invalid_api_key")
    }

    /// 403: the caller may not do this.
    pub fn permission(message: &str) -> (r: Self)
        ensures
            r@ == ApiErrorView::of(403, message@, ErrorType::PermissionError, "insufficient_quota"@),
    {
        ApiError::new(403, message, ErrorType::PermissionError).with_code("insufficient_quota")
    }

    /// 404: there is no such thing.
    pub fn not_found(message: &str) -> (r: Self)
        ensures
            r@ == ApiErrorView::of(404, message@, ErrorType::NotFoundError, "model_not_found"@),
    {
        ApiError::new(404, message, ErrorType::NotFoundError).with_code("model_not_found")
    }

    /// 429: no credential is available now.
    pub fn rate_limit(message: &str) -> (r: Self)
        ensures
            r@ == ApiErrorView::of(429, message@, ErrorType::RateLimitError, "rate_limit_exceeded"@),
    {
        ApiError::new(429, message, ErrorType::RateLimitError).with_code("rate_limit_exceeded")
    }

    /// 500: the gateway failed.
    pub fn server(message: &str) -> (r: Self)
        ensures
            r@ == ApiErrorView::of(500, message@, ErrorType::ServerError, "internal_error"@),
    {
        ApiError::new(500, message, ErrorType::ServerError).with_code("internal_error")
    }

    /// 502: the upstream service failed.
    pub fn upstream(message: &str) -> (r: Self)
        ensures
            r@ == ApiErrorView::of(502, message@, ErrorType::ServerError, "upstream_error"@),
    {
        ApiError::new(502, message, ErrorType::ServerError).with_code("upstream_error")
    }

    /// The message of the error.
    pub fn message(&self) -> (r: String)
        ensures
            r@ == self@.body.message,
    {
        self.body.message.clone()
    }
}

/// An error of the storage.
#[derive(Debug)]
pub struct StorageError(pub String);

impl StorageError {
    /// The message of the error.
    pub fn message(&self) -> (r: String)
        ensures
            r@ == self.0@,
    {
        self.0.clone()
    }
}

} // verus!
