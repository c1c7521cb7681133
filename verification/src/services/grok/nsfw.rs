//! Enabling a feature for a credential: what is sent, how an answer is
//! read, and which attempt follows a failed one.
//!
//! The calls themselves are made elsewhere. Here are the decisions: the
//! payload of each attempt, the outcome that an answer stands for, and the
//! ladder of attempts that a failure climbs.

use vstd::prelude::*;
use vstd::utf8::encode_utf8;
use crate::services::grok::grpc_web::{
    get_grpc_status, parse_grpc_web_response, spec_decode_body, spec_frame_trailers, spec_frames,
    spec_or_insert, spec_text_map, spec_trailer, spec_url_decode, url_decode_or_same,
};
use crate::text::{
    body_preview_from_bytes, body_preview, clone_opt_string, contains_str, decimal_i64,
    lowercase_chars, opt_chars, parse_i32, spec_body_preview, spec_contains, spec_decimal,
    spec_parse_i32, spec_to_ascii_lowercase, spec_trim, spec_utf8_lossy, spec_without_chars,
    string_from_chars, trim, without_chars,
};

verus! {

/// The emulation that a failed attempt falls back to.
pub open spec fn spec_fallback_emulation() -> Seq<char> {
    "chrome_116"@
}

/// Number of characters of a body that go into a message.
pub const PREVIEW_CHARS: usize = 220;

/// The outcome of an attempt.
#[derive(Debug)]
pub struct NsfwResult {
    pub success: bool,
    pub http_status: u16,
    pub grpc_status: Option<i32>,
    pub grpc_message: Option<String>,
    pub error: Option<String>,
}

/// The mathematical value of an outcome.
pub struct NsfwResultView {
    pub success: bool,
    pub http_status: u16,
    pub grpc_status: Option<i32>,
    pub grpc_message: Option<Seq<char>>,
    pub error: Option<Seq<char>>,
}

impl View for NsfwResult {
    type V = NsfwResultView;

    open spec fn view(&self) -> NsfwResultView {
        NsfwResultView {
            success: self.success,
            http_status: self.http_status,
            grpc_status: self.grpc_status,
            grpc_message: opt_chars(self.grpc_message),
            error: opt_chars(self.error),
        }
    }
}

impl Clone for NsfwResult {
    fn clone(&self) -> (r: Self)
        ensures
            r@ == self@,
    {
        NsfwResult {
            success: self.success,
            http_status: self.http_status,
            grpc_status: self.grpc_status,
            grpc_message: clone_opt_string(&self.grpc_message),
            error: clone_opt_string(&self.error),
        }
    }
}

/// The service that enables the feature.
#[derive(Debug, Clone, Copy)]
pub struct NsfwService;

/// Whether the text, in lower case, holds the pattern.
pub open spec fn spec_mentions(text: Seq<char>, pattern: Seq<char>) -> bool {
    spec_contains(spec_to_ascii_lowercase(text), pattern)
}

/// Whether a text speaks of authentication or permission.
pub open spec fn spec_is_auth_related(text: Seq<char>) -> bool {
    spec_mentions(text, "unauthorized"@) || spec_mentions(text, "forbidden"@) || spec_mentions(
        text,
        "auth"@,
    ) || spec_mentions(text, "permission"@) || spec_mentions(text, "token"@)
}

/// Whether a text says that the payload could not be decoded.
pub open spec fn spec_is_payload_decode_error(text: Seq<char>) -> bool {
    spec_mentions(text, "failed to decode protobuf"@) || spec_mentions(text, "invalid wire type"@)
        || spec_mentions(text, "updateuserfeaturecontrolsrequest.features"@)
}

/// Whether a text says that the field mask is missing.
pub open spec fn spec_is_field_mask_missing(text: Seq<char>) -> bool {
    spec_mentions(text, "field mask must be provided"@)
}

/// Whether a text says that a path of the field mask is not known.
pub open spec fn spec_is_invalid_field_mask_path(text: Seq<char>) -> bool {
    spec_mentions(text, "invalid field mask"@) || spec_mentions(text, "fieldmask"@)
        || spec_mentions(text, "cannot find field"@) || spec_mentions(text, "unknown path"@)
}

/// Whether a text says that the field of the features was rejected.
pub open spec fn spec_is_rejected_features_field(text: Seq<char>) -> bool {
    spec_mentions(text, "invalid field: features"@) || spec_mentions(
        text,
        "field mask must be provided"@,
    ) || spec_mentions(text, "invalid field"@)
}

/// Whether a text speaks of authentication or permission.
pub fn is_auth_related(text: &str) -> (r: bool)
    ensures
        r == spec_is_auth_related(text@),
{
    let lower = lowercase_chars(text);
    contains_str(&lower, "unauthorized") || contains_str(&lower, "forbidden") || contains_str(
        &lower,
        "auth",
    ) || contains_str(&lower, "permission") || contains_str(&lower, "token")
}

/// Whether a text says that the payload could not be decoded.
pub fn is_payload_decode_error(text: &str) -> (r: bool)
    ensures
        r == spec_is_payload_decode_error(text@),
{
    let lower = lowercase_chars(text);
    contains_str(&lower, "failed to decode protobuf") || contains_str(&lower, "invalid wire type")
        || contains_str(&lower, "updateuserfeaturecontrolsrequest.features")
}

/// Whether a text says that the field mask is missing.
pub fn is_field_mask_missing(text: &str) -> (r: bool)
    ensures
        r == spec_is_field_mask_missing(text@),
{
    let lower = lowercase_chars(text);
    contains_str(&lower, "field mask must be provided")
}

/// Whether a text says that a path of the field mask is not known.
pub fn is_invalid_field_mask_path(text: &str) -> (r: bool)
    ensures
        r == spec_is_invalid_field_mask_path(text@),
{
    let lower = lowercase_chars(text);
    contains_str(&lower, "invalid field mask") || contains_str(&lower, "fieldmask") || contains_str(
        &lower,
        "cannot find field",
    ) || contains_str(&lower, "unknown path")
}

/// Whether a text says that the field of the features was rejected.
pub fn is_rejected_features_field(text: &str) -> (r: bool)
    ensures
        r == spec_is_rejected_features_field(text@),
{
    let lower = lowercase_chars(text);
    contains_str(&lower, "invalid field: features") || contains_str(
        &lower,
        "field mask must be provided",
    ) || contains_str(&lower, "invalid field")
}

/// The ways in which the message or the error of an outcome is tested.
#[derive(Debug, Clone, Copy, PartialEq, Eq, Structural)]
pub enum TextTest {
    AuthRelated,
    PayloadDecodeError,
    FieldMaskMissing,
    InvalidFieldMaskPath,
    RejectedFeaturesField,
}

/// Whether a text passes a test.
pub open spec fn spec_text_passes(test: TextTest, text: Seq<char>) -> bool {
    match test {
        TextTest::AuthRelated => spec_is_auth_related(text),
        TextTest::PayloadDecodeError => spec_is_payload_decode_error(text),
        TextTest::FieldMaskMissing => spec_is_field_mask_missing(text),
        TextTest::InvalidFieldMaskPath => spec_is_invalid_field_mask_path(text),
        TextTest::RejectedFeaturesField => spec_is_rejected_features_field(text),
    }
}

/// Whether a text passes a test.
pub fn text_passes(test: TextTest, text: &str) -> (r: bool)
    ensures
        r == spec_text_passes(test, text@),
{
    match test {
        TextTest::AuthRelated => is_auth_related(text),
        TextTest::PayloadDecodeError => is_payload_decode_error(text),
        TextTest::FieldMaskMissing => is_field_mask_missing(text),
        TextTest::InvalidFieldMaskPath => is_invalid_field_mask_path(text),
        TextTest::RejectedFeaturesField => is_rejected_features_field(text),
    }
}

impl NsfwResultView {
    /// Whether the message or the error of the outcome passes a test.
    pub open spec fn says(self, test: TextTest) -> bool {
        (self.grpc_message matches Some(m) && spec_text_passes(test, m)) || (self.error matches Some(
            e,
        ) && spec_text_passes(test, e))
    }

    /// Whether the outcome is a failure with the given status whose
    /// message or error passes a test.
    pub open spec fn failed_with(self, grpc_status: i32, test: TextTest) -> bool {
        !self.success && self.grpc_status == Some(grpc_status) && self.says(test)
    }

    /// Whether the attempt is repeated with the field mask in another field.
    pub open spec fn retry_with_alternate_mask_field(self) -> bool {
        self.failed_with(3, TextTest::FieldMaskMissing)
    }

    /// Whether the attempt is repeated with another path in the field mask.
    pub open spec fn retry_with_alternate_mask_path(self) -> bool {
        self.failed_with(3, TextTest::InvalidFieldMaskPath)
    }

    /// Whether the attempt is followed by an age verification.
    pub open spec fn retry_with_age_verify(self) -> bool {
        self.failed_with(3, TextTest::RejectedFeaturesField)
    }

    /// Whether the attempt is repeated with the payload of old.
    pub open spec fn retry_with_legacy_payload(self) -> bool {
        self.failed_with(13, TextTest::PayloadDecodeError)
    }

    /// Whether the whole is repeated with the fallback emulation.
    pub open spec fn retry_with_fallback(self) -> bool {
        !self.success && (self.http_status == 401 || self.http_status == 403 || self.grpc_status
            == Some(7i32) || self.grpc_status == Some(16i32) || self.says(TextTest::AuthRelated))
    }
}

/// Whether the message or the error of the outcome passes a test.
fn says(result: &NsfwResult, test: TextTest) -> (r: bool)
    ensures
        r == result@.says(test),
{
    let by_message = match &result.grpc_message {
        Some(m) => text_passes(test, m.as_str()),
        None => false,
    };
    if by_message {
        return true;
    }
    match &result.error {
        Some(e) => text_passes(test, e.as_str()),
        None => false,
    }
}

/// Whether the outcome is a failure with the given status whose message
/// or error passes a test.
fn failed_with(result: &NsfwResult, grpc_status: i32, test: TextTest) -> (r: bool)
    ensures
        r == result@.failed_with(grpc_status, test),
{
    if result.success {
        return false;
    }
    match result.grpc_status {
        Some(code) => code == grpc_status && says(result, test),
        None => false,
    }
}

/// Whether the attempt is repeated with the field mask in another field.
pub fn should_retry_with_alternate_mask_field(result: &NsfwResult) -> (r: bool)
    ensures
        r == result@.retry_with_alternate_mask_field(),
{
    failed_with(result, 3, TextTest::FieldMaskMissing)
}

/// Whether the attempt is repeated with another path in the field mask.
pub fn should_retry_with_alternate_mask_path(result: &NsfwResult) -> (r: bool)
    ensures
        r == result@.retry_with_alternate_mask_path(),
{
    failed_with(result, 3, TextTest::InvalidFieldMaskPath)
}

/// Whether the attempt is followed by an age verification.
pub fn should_retry_with_age_verify(result: &NsfwResult) -> (r: bool)
    ensures
        r == result@.retry_with_age_verify(),
{
    failed_with(result, 3, TextTest::RejectedFeaturesField)
}

/// Whether the attempt is repeated with the payload of old.
pub fn should_retry_with_legacy_payload(result: &NsfwResult) -> (r: bool)
    ensures
        r == result@.retry_with_legacy_payload(),
{
    failed_with(result, 13, TextTest::PayloadDecodeError)
}

/// Whether the whole is repeated with the fallback emulation.
pub fn should_retry_with_fallback(result: &NsfwResult) -> (r: bool)
    ensures
        r == result@.retry_with_fallback(),
{
    if result.success {
        return false;
    }
    if result.http_status == 401 || result.http_status == 403 {
        return true;
    }
    match result.grpc_status {
        Some(code) => {
            if code == 7 || code == 16 {
                return true;
            }
        },
        None => {},
    }
    says(result, TextTest::AuthRelated)
}

/// The characters that do not count in the name of an emulation.
pub open spec fn spec_emulation_noise() -> Seq<char> {
    seq!['-', '_', ' ']
}

/// The name of an emulation as it is compared: trimmed, in lower case,
/// without hyphens, underscores and spaces.
pub open spec fn spec_normalize_emulation(input: Seq<char>) -> Seq<char> {
    spec_without_chars(spec_to_ascii_lowercase(spec_trim(input)), spec_emulation_noise())
}

/// The name of an emulation as it is compared.
pub fn normalize_emulation(input: &str) -> (r: String)
    ensures
        r@ == spec_normalize_emulation(input@),
{
    let trimmed = trim(input);
    let lower = lowercase_chars(trimmed.as_str());
    let mut noise: Vec<char> = Vec::new();
    noise.push('-');
    noise.push('_');
    noise.push(' ');
    assert(noise@ =~= spec_emulation_noise());
    let kept = without_chars(&lower, &noise);
    string_from_chars(&kept)
}

/// Whether two names stand for the same emulation.
pub fn emulation_equals(left: &str, right: &str) -> (r: bool)
    ensures
        r == (spec_normalize_emulation(left@) == spec_normalize_emulation(right@)),
{
    normalize_emulation(left) == normalize_emulation(right)
}

/// The head of every payload: the message that switches the feature on.
pub open spec fn spec_payload_head() -> Seq<u8> {
    seq![0x0Au8, 0x04u8, 0x08u8, 0x01u8, 0x10u8, 0x01u8]
}

/// The payload of old, kept for the case that the head alone is not understood.
pub open spec fn spec_legacy_payload() -> Seq<u8> {
    seq![0x08u8, 0x01u8, 0x10u8, 0x01u8]
}

/// The payload with a field mask of one path in the field of the given
/// number: the head, the tag of the field, and the mask with its length;
/// the head alone if the path has more than 253 bytes.
pub open spec fn spec_proto_payload(mask_field_number: u8, path: Seq<u8>) -> Seq<u8> {
    if path.len() > 253 {
        spec_payload_head()
    } else {
        spec_payload_head() + seq![
            (((mask_field_number as int) * 8) % 256 + 2) as u8,
            (path.len() + 2) as u8,
            0x0Au8,
            path.len() as u8,
        ] + path
    }
}

/// The payload with a field mask of one path in the field of the given number.
pub fn build_proto_payload(mask_field_number: u8, mask_path: &str) -> (r: Vec<u8>)
    ensures
        r@ == spec_proto_payload(mask_field_number, encode_utf8(mask_path@)),
{
    let mut out: Vec<u8> = Vec::new();
    out.push(0x0A);
    out.push(0x04);
    out.push(0x08);
    out.push(0x01);
    out.push(0x10);
    out.push(0x01);
    assert(out@ =~= spec_payload_head());
    let path = mask_path.as_bytes();
    if path.len() > 253 {
        return out;
    }
    let tag: u8 = ((((mask_field_number as u16) * 8) % 256) + 2) as u8;
    out.push(tag);
    out.push((path.len() + 2) as u8);
    out.push(0x0A);
    out.push(path.len() as u8);
    let ghost start = out@;
    let mut i: usize = 0;
    while i < path.len()
        invariant
            i <= path.len(),
            out@ == start + path@.take(i as int),
        decreases path.len() - i,
    {
        out.push(path[i]);
        assert(path@.take(i + 1) =~= path@.take(i as int).push(path@[i as int]));
        i += 1;
    }
    assert(path@.take(i as int) =~= path@);
    assert(out@ =~= spec_proto_payload(mask_field_number, path@));
    out
}

/// A rung of the ladder of attempts.
#[derive(Debug, Clone, Copy, PartialEq, Eq, Structural)]
pub enum LadderStage {
    /// The field mask in field two, path `features`.
    Primary,
    /// The field mask in field three.
    AlternateField,
    /// The path `features.enabled`.
    AlternatePath,
    /// The payload of old.
    Legacy,
    /// The age verification.
    AgeVerify,
}

impl LadderStage {
    /// The height of the rung.
    pub open spec fn spec_rank(self) -> int {
        match self {
            LadderStage::Primary => 0,
            LadderStage::AlternateField => 1,
            LadderStage::AlternatePath => 2,
            LadderStage::Legacy => 3,
            LadderStage::AgeVerify => 4,
        }
    }

    /// The height of the rung.
    pub fn rank(self) -> (r: u8)
        ensures
            r == self.spec_rank(),
    {
        match self {
            LadderStage::Primary => 0,
            LadderStage::AlternateField => 1,
            LadderStage::AlternatePath => 2,
            LadderStage::Legacy => 3,
            LadderStage::AgeVerify => 4,
        }
    }

    /// Whether an outcome calls for this rung.
    pub open spec fn spec_called_for(self, result: NsfwResultView) -> bool {
        match self {
            LadderStage::Primary => false,
            LadderStage::AlternateField => result.retry_with_alternate_mask_field(),
            LadderStage::AlternatePath => result.retry_with_alternate_mask_path(),
            LadderStage::Legacy => result.retry_with_legacy_payload(),
            LadderStage::AgeVerify => result.retry_with_age_verify(),
        }
    }

    /// Whether an outcome calls for this rung.
    pub fn called_for(self, result: &NsfwResult) -> (r: bool)
        ensures
            r == self.spec_called_for(result@),
    {
        match self {
            LadderStage::Primary => false,
            LadderStage::AlternateField => should_retry_with_alternate_mask_field(result),
            LadderStage::AlternatePath => should_retry_with_alternate_mask_path(result),
            LadderStage::Legacy => should_retry_with_legacy_payload(result),
            LadderStage::AgeVerify => should_retry_with_age_verify(result),
        }
    }

    /// The payload that is sent on this rung; none for the age
    /// verification, which is a call of another kind.
    pub fn payload(self) -> (r: Option<Vec<u8>>)
        ensures
            r is None <==> self == LadderStage::AgeVerify,
            r matches Some(p) ==> p@ == match self {
                LadderStage::Primary => spec_proto_payload(2, encode_utf8("features"@)),
                LadderStage::AlternateField => spec_proto_payload(3, encode_utf8("features"@)),
                LadderStage::AlternatePath => spec_proto_payload(2, encode_utf8("features.enabled"@)),
                _ => spec_legacy_payload(),
            },
    {
        match self {
            LadderStage::Primary => Some(build_proto_payload(2, "features")),
            LadderStage::AlternateField => Some(build_proto_payload(3, "features")),
            LadderStage::AlternatePath => Some(build_proto_payload(2, "features.enabled")),
            LadderStage::Legacy => {
                let mut out: Vec<u8> = Vec::new();
                out.push(0x08);
                out.push(0x01);
                out.push(0x10);
                out.push(0x01);
                assert(out@ =~= spec_legacy_payload());
                Some(out)
            },
            LadderStage::AgeVerify => None,
        }
    }

    /// What the error of an outcome of this rung begins with when the rung
    /// before failed too, and what stands between the two errors.
    pub open spec fn spec_labels(self) -> (Seq<char>, Seq<char>) {
        match self {
            LadderStage::Primary => (Seq::empty(), Seq::empty()),
            LadderStage::AlternateField => (
                "primary payload failed: "@,
                "; alternate mask field failed: "@,
            ),
            LadderStage::AlternatePath => (
                "previous payload failed: "@,
                "; alternate mask path failed: "@,
            ),
            LadderStage::Legacy => ("previous payload failed: "@, "; legacy payload failed: "@),
            LadderStage::AgeVerify => ("gRPC update failed: "@, "; age-verify fallback failed: "@),
        }
    }
}

/// The error of an outcome, or the word for none.
pub open spec fn spec_error_or_unknown(error: Option<Seq<char>>) -> Seq<char> {
    match error {
        Some(e) => e,
        None => "unknown"@,
    }
}

/// The rung that follows the rung `last` after the given outcome: the
/// lowest rung above `last` that the outcome calls for. None if the
/// outcome is a success or calls for no higher rung.
pub open spec fn spec_next_stage(last: LadderStage, result: NsfwResultView) -> Option<LadderStage> {
    if result.success {
        None
    } else if last.spec_rank() < 1 && LadderStage::AlternateField.spec_called_for(result) {
        Some(LadderStage::AlternateField)
    } else if last.spec_rank() < 2 && LadderStage::AlternatePath.spec_called_for(result) {
        Some(LadderStage::AlternatePath)
    } else if last.spec_rank() < 3 && LadderStage::Legacy.spec_called_for(result) {
        Some(LadderStage::Legacy)
    } else if last.spec_rank() < 4 && LadderStage::AgeVerify.spec_called_for(result) {
        Some(LadderStage::AgeVerify)
    } else {
        None
    }
}

/// The rung that follows the rung `last` after the given outcome.
pub fn next_stage(last: LadderStage, result: &NsfwResult) -> (r: Option<LadderStage>)
    ensures
        r == spec_next_stage(last, result@),
        r matches Some(s) ==> s.spec_rank() > last.spec_rank(),
{
    if result.success {
        return None;
    }
    let rank = last.rank();
    if rank < 1 && LadderStage::AlternateField.called_for(result) {
        Some(LadderStage::AlternateField)
    } else if rank < 2 && LadderStage::AlternatePath.called_for(result) {
        Some(LadderStage::AlternatePath)
    } else if rank < 3 && LadderStage::Legacy.called_for(result) {
        Some(LadderStage::Legacy)
    } else if rank < 4 && LadderStage::AgeVerify.called_for(result) {
        Some(LadderStage::AgeVerify)
    } else {
        None
    }
}

/// The error that tells of two failures.
pub open spec fn spec_joined_error(
    head: Seq<char>,
    previous: Option<Seq<char>>,
    middle: Seq<char>,
    latest: Option<Seq<char>>,
) -> Seq<char> {
    head + spec_error_or_unknown(previous) + middle + spec_error_or_unknown(latest)
}

/// The error that tells of two failures.
fn joined_error(head: &str, previous: &Option<String>, middle: &str, latest: &Option<String>) -> (r: String)
    ensures
        r@ == spec_joined_error(head@, opt_chars(*previous), middle@, opt_chars(*latest)),
{
    let mut out = head.to_owned();
    match previous {
        Some(e) => out.append(e.as_str()),
        None => out.append("unknown"),
    }
    out.append(middle);
    match latest {
        Some(e) => out.append(e.as_str()),
        None => out.append("unknown"),
    }
    out
}

/// The outcome of a rung that failed after the rung before had failed: the
/// later outcome, with an error that tells of both.
pub fn combine_failure(stage: LadderStage, previous: &NsfwResult, latest: NsfwResult) -> (r: NsfwResult)
    requires
        stage != LadderStage::Primary,
    ensures
        r@ == (NsfwResultView {
            error: Some(
                spec_joined_error(
                    stage.spec_labels().0,
                    previous@.error,
                    stage.spec_labels().1,
                    latest@.error,
                ),
            ),
            ..latest@
        }),
{
    let error = match stage {
        LadderStage::AlternateField => joined_error(
            "primary payload failed: ",
            &previous.error,
            "; alternate mask field failed: ",
            &latest.error,
        ),
        LadderStage::AlternatePath => joined_error(
            "previous payload failed: ",
            &previous.error,
            "; alternate mask path failed: ",
            &latest.error,
        ),
        LadderStage::Legacy => joined_error(
            "previous payload failed: ",
            &previous.error,
            "; legacy payload failed: ",
            &latest.error,
        ),
        _ => joined_error(
            "gRPC update failed: ",
            &previous.error,
            "; age-verify fallback failed: ",
            &latest.error,
        ),
    };
    let mut r = latest;
    r.error = Some(error);
    r
}

/// Whether a failed run of the ladder is repeated with the fallback
/// emulation: the outcome calls for it, and the emulation that was used is
/// another one.
pub fn fallback_needed(first: &NsfwResult, preferred_emulation: &str) -> (r: bool)
    ensures
        r == (first@.retry_with_fallback() && spec_normalize_emulation(preferred_emulation@)
            != spec_normalize_emulation(spec_fallback_emulation())),
{
    should_retry_with_fallback(first) && !emulation_equals(preferred_emulation, "chrome_116")
}

/// The outcome of a run with the fallback emulation that failed like the
/// run before: the later outcome, with an error that tells of both.
pub fn combine_fallback(first: &NsfwResult, second: NsfwResult) -> (r: NsfwResult)
    ensures
        r@ == (NsfwResultView {
            error: Some(
                spec_joined_error(
                    "primary attempt failed: "@,
                    first@.error,
                    "; fallback attempt failed: "@,
                    second@.error,
                ),
            ),
            ..second@
        }),
{
    let error = joined_error(
        "primary attempt failed: ",
        &first.error,
        "; fallback attempt failed: ",
        &second.error,
    );
    let mut r = second;
    r.error = Some(error);
    r
}

/// The outcome that stands for a call that could not be made.
pub fn transport_failure(message: &str) -> (r: NsfwResult)
    ensures
        r@ == (NsfwResultView {
            success: false,
            http_status: 0,
            grpc_status: None,
            grpc_message: None,
            error: Some(message@),
        }),
{
    NsfwResult {
        success: false,
        http_status: 0,
        grpc_status: None,
        grpc_message: None,
        error: Some(message.to_owned()),
    }
}

/// The error of an answer whose status is not 200.
pub open spec fn spec_http_error(status: u16, content_type: Seq<char>, preview: Seq<char>) -> Seq<char> {
    "HTTP "@ + spec_decimal(status as int) + "; content-type: "@ + content_type + "; body: "@
        + preview
}

/// The error of an answer whose status is not 200.
fn http_error(status: u16, content_type: &str, preview: &str) -> (r: String)
    ensures
        r@ == spec_http_error(status, content_type@, preview@),
{
    let mut out = "HTTP ".to_owned();
    out.append(decimal_i64(status as i64).as_str());
    out.append("; content-type: ");
    out.append(content_type);
    out.append("; body: ");
    out.append(preview);
    out
}

/// The outcome that the answer to the age verification stands for.
pub fn interpret_age_response(status: u16, content_type: &str, body: &str) -> (r: NsfwResult)
    ensures
        r@ == if status == 200 {
            NsfwResultView {
                success: true,
                http_status: 200,
                grpc_status: Some(0i32),
                grpc_message: Some("fallback age verify success"@),
                error: None,
            }
        } else {
            NsfwResultView {
                success: false,
                http_status: status,
                grpc_status: Some(3i32),
                grpc_message: Some("age verify fallback failed"@),
                error: Some(
                    spec_http_error(
                        status,
                        content_type@,
                        spec_body_preview(body@, PREVIEW_CHARS as int),
                    ),
                ),
            }
        },
{
    if status == 200 {
        return NsfwResult {
            success: true,
            http_status: 200,
            grpc_status: Some(0),
            grpc_message: Some("fallback age verify success".to_owned()),
            error: None,
        };
    }
    let preview = body_preview(body, PREVIEW_CHARS);
    NsfwResult {
        success: false,
        http_status: status,
        grpc_status: Some(3),
        grpc_message: Some("age verify fallback failed".to_owned()),
        error: Some(http_error(status, content_type, preview.as_str())),
    }
}

/// The error of an answer whose status is 200 and whose call failed.
pub open spec fn spec_grpc_error(code: i32, message: Seq<char>, preview: Seq<char>) -> Seq<char> {
    "gRPC error: code="@ + spec_decimal(code as int) + ", message="@ + message + ", body="@
        + preview
}

/// The trailers of an answer: those of the body; the status of the header
/// if the body gives none; the message of the header, percent-decoded if
/// that can be done, if the body gives none.
pub open spec fn spec_answer_trailers(
    content_type: Seq<char>,
    grpc_status_header: Option<Seq<char>>,
    grpc_message_header: Option<Seq<char>>,
    body: Seq<u8>,
) -> Map<Seq<char>, Seq<char>> {
    let frames = spec_frames(spec_decode_body(body, Some(content_type)), 0);
    spec_or_insert(
        spec_or_insert(
            spec_frame_trailers(frames, frames.len() as int),
            "grpc-status"@,
            grpc_status_header,
        ),
        "grpc-message"@,
        match grpc_message_header {
            Some(h) => Some(
                match spec_url_decode(h) {
                    Some(d) => d,
                    None => h,
                },
            ),
            None => None,
        },
    )
}

/// A text under a key of trailers, or the empty text.
pub open spec fn spec_text_at(trailers: Map<Seq<char>, Seq<char>>, key: Seq<char>) -> Seq<char> {
    if trailers.dom().contains(key) {
        trailers[key]
    } else {
        Seq::empty()
    }
}

/// The outcome that the answer to an attempt stands for. An answer whose
/// status is not 200 is a failure. One whose status is 200 is a success if
/// its trailers give the status zero or none that can be read.
pub open spec fn spec_interpret_enable_response(
    status: u16,
    content_type: Seq<char>,
    grpc_status_header: Option<Seq<char>>,
    grpc_message_header: Option<Seq<char>>,
    body: Seq<u8>,
) -> NsfwResultView {
    let preview = spec_body_preview(spec_utf8_lossy(body), PREVIEW_CHARS as int);
    if status != 200 {
        NsfwResultView {
            success: false,
            http_status: status,
            grpc_status: match grpc_status_header {
                Some(h) => spec_parse_i32(h),
                None => None,
            },
            grpc_message: grpc_message_header,
            error: Some(spec_http_error(status, content_type, preview)),
        }
    } else {
        let trailers = spec_answer_trailers(
            content_type,
            grpc_status_header,
            grpc_message_header,
            body,
        );
        let code = match spec_parse_i32(spec_text_at(trailers, "grpc-status"@)) {
            Some(c) => c,
            None => -1i32,
        };
        let message = spec_text_at(trailers, "grpc-message"@);
        let success = code == -1 || code == 0;
        NsfwResultView {
            success,
            http_status: status,
            grpc_status: Some(code),
            grpc_message: if message.len() == 0 {
                None
            } else {
                Some(message)
            },
            error: if success {
                None
            } else {
                Some(spec_grpc_error(code, message, preview))
            },
        }
    }
}

/// The outcome that the answer to an attempt stands for.
pub fn interpret_enable_response(
    status: u16,
    content_type: &str,
    grpc_status_header: Option<&str>,
    grpc_message_header: Option<&str>,
    body: &[u8],
) -> (r: NsfwResult)
    ensures
        r@ == spec_interpret_enable_response(
            status,
            content_type@,
            match grpc_status_header {
                Some(h) => Some(h@),
                None => None,
            },
            match grpc_message_header {
                Some(h) => Some(h@),
                None => None,
            },
            body@,
        ),
{
    let preview = body_preview_from_bytes(body, PREVIEW_CHARS);
    if status != 200 {
        return NsfwResult {
            success: false,
            http_status: status,
            grpc_status: match grpc_status_header {
                Some(h) => parse_i32(h),
                None => None,
            },
            grpc_message: match grpc_message_header {
                Some(h) => Some(h.to_owned()),
                None => None,
            },
            error: Some(http_error(status, content_type, preview.as_str())),
        };
    }
    let decoded_message = match grpc_message_header {
        Some(h) => Some(url_decode_or_same(h)),
        None => None,
    };
    let mut parsed = parse_grpc_web_response(body, Some(content_type), None, None);
    match grpc_status_header {
        Some(h) => {
            if !parsed.trailers.contains_key("grpc-status") {
                parsed.trailers.insert("grpc-status", h.to_owned());
            }
        },
        None => {},
    }
    match decoded_message {
        Some(m) => {
            if !parsed.trailers.contains_key("grpc-message") {
                parsed.trailers.insert("grpc-message", m);
            }
        },
        None => {},
    }
    proof {
        let expected = spec_answer_trailers(
            content_type@,
            match grpc_status_header {
                Some(h) => Some(h@),
                None => None,
            },
            match grpc_message_header {
                Some(h) => Some(h@),
                None => None,
            },
            body@,
        );
        assert(spec_text_map(parsed.trailers@) =~= expected);
        assert(spec_trailer(parsed.trailers@, "grpc-status"@) == spec_text_at(
            expected,
            "grpc-status"@,
        ));
        assert(spec_trailer(parsed.trailers@, "grpc-message"@) == spec_text_at(
            expected,
            "grpc-message"@,
        ));
    }
    let grpc = get_grpc_status(&parsed.trailers);
    let success = grpc.code == -1 || grpc.ok();
    let grpc_message = if grpc.message.as_str().is_empty() {
        None
    } else {
        Some(grpc.message.clone())
    };
    let error = if success {
        None
    } else {
        let mut out = "gRPC error: code=".to_owned();
        out.append(decimal_i64(grpc.code as i64).as_str());
        out.append(", message=");
        out.append(grpc.message.as_str());
        out.append(", body=");
        out.append(preview.as_str());
        Some(out)
    };
    NsfwResult { success, http_status: status, grpc_status: Some(grpc.code), grpc_message, error }
}

} // verus!
