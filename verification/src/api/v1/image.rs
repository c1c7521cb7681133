//! What a request for images says, and the form in which images are returned.

use vstd::prelude::*;
use crate::common::exceptions::{ApiError, ApiErrorView, ErrorBodyView, ErrorType};
use crate::text::{
    lowercase_chars, spec_to_ascii_lowercase, spec_trim, str_eq, string_from_chars, trim,
};

verus! {

/// A request for images.
#[derive(Debug)]
pub struct ImageRequest {
    pub prompt: String,
    pub model: Option<String>,
    pub n: Option<u32>,
    pub size: Option<String>,
    pub quality: Option<String>,
    pub response_format: Option<String>,
    pub style: Option<String>,
    pub stream: Option<bool>,
}

/// The form in which images are returned.
#[derive(Debug, Clone, Copy, PartialEq, Eq, Structural)]
pub enum ImageOutputFormat {
    Url,
    Base64,
}

/// The form that a word names: `url`, or `base64` or `b64_json`, whatever
/// the case of the letters and the white space around the word.
pub open spec fn spec_parse_format(raw: Seq<char>) -> Option<ImageOutputFormat> {
    let word = spec_to_ascii_lowercase(spec_trim(raw));
    if word == "url"@ {
        Some(ImageOutputFormat::Url)
    } else if word == "base64"@ || word == "b64_json"@ {
        Some(ImageOutputFormat::Base64)
    } else {
        None
    }
}

impl ImageOutputFormat {
    /// The form that a word names.
    pub fn parse(raw: &str) -> (r: Option<Self>)
        ensures
            r == spec_parse_format(raw@),
    {
        let trimmed = trim(raw);
        let lower = lowercase_chars(trimmed.as_str());
        let word = string_from_chars(&lower);
        if str_eq(word.as_str(), "url") {
            Some(ImageOutputFormat::Url)
        } else if str_eq(word.as_str(), "base64") || str_eq(word.as_str(), "b64_json") {
            Some(ImageOutputFormat::Base64)
        } else {
            None
        }
    }

    /// Whether images are returned as base64 text.
    pub fn is_base64(self) -> (r: bool)
        ensures
            r == (self == ImageOutputFormat::Base64),
    {
        match self {
            ImageOutputFormat::Base64 => true,
            ImageOutputFormat::Url => false,
        }
    }
}

/// The error for a form that is not known.
pub open spec fn spec_format_error() -> ApiErrorView {
    ApiErrorView {
        status: 400,
        body: ErrorBodyView {
            message: "response_format must be one of: url, b64_json"@,
            error_type: ErrorType::InvalidRequestError,
            param: Some("response_format"@),
            code: Some("invalid_value"@),
        },
    }
}

/// The form in which the images of a request are returned: the one that
/// the request names, which must be known; without one, the configured
/// one, or URLs if that is not known.
pub fn resolve_image_output_format(response_format: Option<&str>, config_format: &str) -> (r: Result<
    ImageOutputFormat,
    ApiError,
>)
    ensures
        match response_format {
            Some(f) if spec_trim(f@).len() > 0 => match spec_parse_format(spec_trim(f@)) {
                Some(format) => r == Ok::<ImageOutputFormat, ApiError>(format),
                None => r is Err && r->Err_0@ == spec_format_error(),
            },
            _ => r == Ok::<ImageOutputFormat, ApiError>(
                match spec_parse_format(config_format@) {
                    Some(format) => format,
                    None => ImageOutputFormat::Url,
                },
            ),
        },
{
    let asked = match response_format {
        Some(f) => {
            let t = trim(f);
            if t.as_str().is_empty() {
                None
            } else {
                Some(t)
            }
        },
        None => None,
    };
    match asked {
        Some(f) => match ImageOutputFormat::parse(f.as_str()) {
            Some(format) => Ok(format),
            None => Err(
                ApiError::invalid_request("response_format must be one of: url, b64_json").with_param(
                    "response_format",
                ),
            ),
        },
        None => Ok(
            match ImageOutputFormat::parse(config_format) {
                Some(format) => format,
                None => ImageOutputFormat::Url,
            },
        ),
    }
}

} // verus!
