//! Who may call the gateway.

use vstd::prelude::*;
use crate::common::exceptions::{ApiError, ApiErrorView, ErrorType};
use crate::text::{
    spec_starts_with, spec_trim, starts_with, str_chars, str_eq, string_from_range, trim,
};

verus! {

/// The word before a key in an authorization header.
pub open spec fn spec_bearer_prefix() -> Seq<char> {
    "Bearer "@
}

/// The key that an authorization header carries: what follows `Bearer `,
/// trimmed; none if the header does not begin so.
pub open spec fn spec_extract_bearer(header: Option<Seq<char>>) -> Option<Seq<char>> {
    match header {
        Some(h) => if spec_starts_with(h, spec_bearer_prefix()) {
            Some(spec_trim(h.skip(spec_bearer_prefix().len() as int)))
        } else {
            None
        },
        None => None,
    }
}

/// The view of an optional text.
pub open spec fn opt_str(o: Option<&str>) -> Option<Seq<char>> {
    match o {
        Some(s) => Some(s@),
        None => None,
    }
}

/// The key that an authorization header carries.
pub fn extract_bearer(header: Option<&str>) -> (r: Option<String>)
    ensures
        crate::text::opt_chars(r) == spec_extract_bearer(opt_str(header)),
{
    match header {
        Some(h) => {
            let chars = str_chars(h);
            let prefix = str_chars("Bearer ");
            if starts_with(&chars, &prefix) {
                let rest = string_from_range(&chars, prefix.len(), chars.len());
                assert(chars@.skip(prefix.len() as int) =~= chars@.subrange(
                    prefix.len() as int,
                    chars.len() as int,
                ));
                Some(trim(rest.as_str()))
            } else {
                None
            }
        },
        None => None,
    }
}

/// The error for a key that is not the right one.
pub open spec fn spec_invalid_token() -> ApiErrorView {
    ApiErrorView::of(
        401,
        "Invalid authentication token"@,
        ErrorType::AuthenticationError,
        "invalid_api_key"@,
    )
}

/// The error for a key that is not there.
pub open spec fn spec_missing_token() -> ApiErrorView {
    ApiErrorView::of(
        401,
        "Missing authentication token"@,
        ErrorType::AuthenticationError,
        "invalid_api_key"@,
    )
}

/// What the check of a key against the one expected gives.
pub open spec fn spec_check_bearer(expected: Seq<char>, header: Option<Seq<char>>) -> Option<ApiErrorView> {
    match spec_extract_bearer(header) {
        Some(key) => if key == expected {
            None
        } else {
            Some(spec_invalid_token())
        },
        None => Some(spec_missing_token()),
    }
}

/// The error of a result that has one.
pub open spec fn spec_error_of(r: Result<(), ApiError>) -> Option<ApiErrorView> {
    match r {
        Ok(_) => None,
        Err(e) => Some(e@),
    }
}

/// Checks the key of an authorization header against the one expected.
fn check_bearer(expected: &str, header: Option<&str>) -> (r: Result<(), ApiError>)
    ensures
        spec_error_of(r) == spec_check_bearer(expected@, opt_str(header)),
{
    match extract_bearer(header) {
        Some(key) => {
            if str_eq(key.as_str(), expected) {
                Ok(())
            } else {
                Err(ApiError::authentication("Invalid authentication token"))
            }
        },
        None => Err(ApiError::authentication("Missing authentication token")),
    }
}

/// Checks a call of the public interface. Without a configured key every
/// call passes; with one, the call must carry it.
pub fn verify_api_key(api_key: &str, header: Option<&str>) -> (r: Result<(), ApiError>)
    ensures
        spec_error_of(r) == if api_key@.len() == 0 {
            None
        } else {
            spec_check_bearer(api_key@, opt_str(header))
        },
{
    if api_key.is_empty() {
        return Ok(());
    }
    check_bearer(api_key, header)
}

/// Checks a call of the administration. Without a configured key no call
/// passes; with one, the call must carry it.
pub fn verify_app_key(app_key: &str, header: Option<&str>) -> (r: Result<(), ApiError>)
    ensures
        spec_error_of(r) == if app_key@.len() == 0 {
            Some(
                ApiErrorView::of(
                    401,
                    "App key is not configured"@,
                    ErrorType::AuthenticationError,
                    "invalid_api_key"@,
                ),
            )
        } else {
            spec_check_bearer(app_key@, opt_str(header))
        },
{
    if app_key.is_empty() {
        return Err(ApiError::authentication("App key is not configured"));
    }
    check_bearer(app_key, header)
}

/// The key that a query parameter carries: what follows `Bearer `, if it
/// begins so, or all of it; trimmed.
pub open spec fn spec_query_key(query: Seq<char>) -> Seq<char> {
    if spec_starts_with(query, spec_bearer_prefix()) {
        spec_trim(query.skip(spec_bearer_prefix().len() as int))
    } else {
        spec_trim(query)
    }
}

/// Checks a call that carries its key as a query parameter. Without a
/// configured key every call passes; with one, the call must carry it.
pub fn verify_stream_api_key(api_key: &str, query_key: Option<&str>) -> (r: Result<(), ApiError>)
    ensures
        spec_error_of(r) == if api_key@.len() == 0 || (query_key matches Some(q) && spec_query_key(
            q@,
        ) == api_key@) {
            None
        } else {
            Some(spec_invalid_token())
        },
{
    if api_key.is_empty() {
        return Ok(());
    }
    match query_key {
        Some(q) => {
            let key = match extract_bearer(Some(q)) {
                Some(k) => k,
                None => trim(q),
            };
            if str_eq(key.as_str(), api_key) {
                return Ok(());
            }
        },
        None => {},
    }
    Err(ApiError::authentication("Invalid authentication token"))
}

} // verus!
