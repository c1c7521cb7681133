use base64::Engine;

use grok2api::api::v1::chat::{user_content_type, valid_role};
use grok2api::api::v1::image::{resolve_image_output_format, ImageOutputFormat};
use grok2api::common::auth::{extract_bearer, verify_api_key, verify_app_key, verify_stream_api_key};
use grok2api::common::exceptions::{ApiError, ErrorType, StorageError};
use grok2api::common::string_map::StringMap;
use grok2api::services::grok::grpc_web::{
    encode_grpc_web_payload, get_grpc_status, maybe_decode_grpc_web_text, parse_frames,
    parse_grpc_web_response, parse_trailer_block, url_decode_or_same, GrpcStatus,
};
use grok2api::services::grok::imagine_nsfw::{
    extract_image_id, final_outcome, is_final_image, size_to_aspect_ratio, target_count,
    AttemptOutcome, GenerationProgress, GenerationRetry, ImageStage, ImagineResult,
};
use grok2api::services::grok::model::{Cost, ModelInfo, ModelService, Tier, MODEL_COUNT};
use grok2api::services::grok::nsfw::{
    build_proto_payload, combine_failure, combine_fallback, emulation_equals, fallback_needed,
    interpret_age_response, interpret_enable_response, is_auth_related,
    is_field_mask_missing, is_invalid_field_mask_path, is_payload_decode_error,
    is_rejected_features_field, next_stage, normalize_emulation,
    should_retry_with_age_verify, should_retry_with_alternate_mask_field,
    should_retry_with_alternate_mask_path, should_retry_with_fallback,
    should_retry_with_legacy_payload, transport_failure, LadderStage, NsfwResult,
};
use grok2api::services::grok::retry::RetryContext;
use grok2api::services::grok::statsig::StatsigService;
use grok2api::services::grok::usage::{body_preview as usage_preview, normalize_json_text};
use grok2api::services::grok::wreq_client::{
    connect_timeout_secs, parse_emulation, proxy_of, request_timeout_secs, Browser, Emulation,
};
use grok2api::text::{
    body_preview, body_preview_from_bytes, char_is_whitespace, decimal_i64, escape_default,
    parse_i32, trim,
};

fn failure(http: u16, grpc: Option<i32>, message: Option<&str>, error: Option<&str>) -> NsfwResult {
    NsfwResult {
        success: false,
        http_status: http,
        grpc_status: grpc,
        grpc_message: message.map(|s| s.to_string()),
        error: error.map(|s| s.to_string()),
    }
}

fn frame(flag: u8, payload: &[u8]) -> Vec<u8> {
    let mut out = vec![flag];
    out.extend_from_slice(&(payload.len() as u32).to_be_bytes());
    out.extend_from_slice(payload);
    out
}

#[test]
fn models_on_offer() {
    let list = ModelService::list();
    assert_eq!(list.len(), MODEL_COUNT);
    assert_eq!(list.len(), 10);
    assert_eq!(list[0].model_id, "grok-3");
    assert_eq!(list[3].grok_model, "grok-4-mini-thinking-tahoe");
    assert_eq!(list[3].model_mode, "MODEL_MODE_GROK_4_MINI_THINKING");
    assert_eq!(list[5].model_id, "grok-4-heavy");
    assert_eq!(list[5].tier, Tier::Super);
    assert_eq!(list[5].cost, Cost::High);
    assert_eq!(list[7].cost, Cost::High);
    assert_eq!(list[7].tier, Tier::Basic);
    assert!(list[8].is_image);
    assert_eq!(list[8].description, "Image generation model");
    assert!(list[9].is_video);
    assert_eq!(list[9].display_name, "Grok Video");
    let plain = ModelInfo::new("m", "g", "mode", "M");
    assert_eq!(plain.tier, Tier::Basic);
    assert_eq!(plain.cost, Cost::Low);
    assert_eq!(plain.description, "");
    assert!(!plain.is_image && !plain.is_video);
}

#[test]
fn model_lookup() {
    assert!(ModelService::valid("grok-4.1"));
    assert!(!ModelService::valid("grok-5"));
    assert!(!ModelService::valid(""));
    assert_eq!(ModelService::get("grok-4-fast").unwrap().model_mode, "MODEL_MODE_FAST");
    assert!(ModelService::get("GROK-3").is_none());
    assert_eq!(ModelService::pool_for_model("grok-4-heavy"), "ssoSuper");
    assert_eq!(ModelService::pool_for_model("grok-3"), "ssoBasic");
    assert_eq!(ModelService::pool_for_model("unknown"), "ssoBasic");
}

#[test]
fn frame_is_written_with_a_five_byte_head() {
    assert_eq!(encode_grpc_web_payload(&[]), vec![0, 0, 0, 0, 0]);
    assert_eq!(encode_grpc_web_payload(&[8, 1, 16, 1]), vec![0, 0, 0, 0, 4, 8, 1, 16, 1]);
    let long = vec![7u8; 300];
    let framed = encode_grpc_web_payload(&long);
    assert_eq!(&framed[..5], &[0, 0, 0, 1, 44]);
    assert_eq!(framed.len(), 305);
}

#[test]
fn frames_are_read_back() {
    let mut body = encode_grpc_web_payload(b"hello");
    body.extend(frame(0x80, b"grpc-status: 0\r\n"));
    body.extend(frame(0, b""));
    body.extend_from_slice(&[0, 0, 0, 0, 9, 1, 2]);
    let frames = parse_frames(&body);
    assert_eq!(frames.len(), 3);
    assert_eq!(frames[0].flag, 0);
    assert_eq!(frames[0].payload, b"hello");
    assert_eq!(frames[1].flag, 0x80);
    assert_eq!(frames[2].payload, b"");
    assert!(parse_frames(&[0, 0, 0, 0]).is_empty());
    assert!(parse_frames(&[]).is_empty());
}

#[test]
fn text_bodies_are_decoded() {
    let binary = encode_grpc_web_payload(b"hi");
    let text = base64::engine::general_purpose::STANDARD.encode(&binary);
    let spaced = format!("{}\r\n{}", &text[..4], &text[4..]);
    assert_eq!(maybe_decode_grpc_web_text(text.as_bytes(), Some("application/GRPC-WEB-TEXT")), binary);
    assert_eq!(maybe_decode_grpc_web_text(spaced.as_bytes(), None), binary);
    assert_eq!(maybe_decode_grpc_web_text(&binary, Some("application/grpc-web+proto")), binary);
    assert_eq!(maybe_decode_grpc_web_text(b"not base64!", Some("application/grpc-web-text")), b"not base64!");
    assert_eq!(maybe_decode_grpc_web_text(b"abc", None), b"abc");
}

#[test]
fn trailers_are_parsed() {
    let mut trailers: StringMap<String> = StringMap::new();
    parse_trailer_block(
        &mut trailers,
        b"Grpc-Status: 7 \r\n\r\ngrpc-message: not%20allowed\nno colon here\nX-Key:a:b\r",
    );
    assert_eq!(trailers.len(), 3);
    assert_eq!(trailers.get("grpc-status").map(|s| s.as_str()), Some("7"));
    assert_eq!(trailers.get("grpc-message").map(|s| s.as_str()), Some("not allowed"));
    assert_eq!(trailers.get("x-key").map(|s| s.as_str()), Some("a:b"));
    let status = get_grpc_status(&trailers);
    assert_eq!(status.code, 7);
    assert_eq!(status.message, "not allowed");
    assert!(!status.ok());
    assert_eq!(status.http_equiv(), 403);
}

#[test]
fn response_is_read_with_headers_as_fallback() {
    let mut body = encode_grpc_web_payload(b"one");
    body.extend(encode_grpc_web_payload(b"two"));
    body.extend(frame(0x80, b"grpc-status:0"));
    let parsed = parse_grpc_web_response(&body, Some("application/grpc-web+proto"), Some("13"), Some("from%20header"));
    assert_eq!(parsed.messages, vec![b"one".to_vec(), b"two".to_vec()]);
    assert_eq!(parsed.trailers.get("grpc-status").map(|s| s.as_str()), Some("0"));
    assert_eq!(parsed.trailers.get("grpc-message").map(|s| s.as_str()), Some("from header"));
    let bare = parse_grpc_web_response(&[], None, None, None);
    assert!(bare.messages.is_empty());
    assert_eq!(bare.trailers.len(), 0);
    assert_eq!(get_grpc_status(&bare.trailers).code, -1);
    let bad = parse_grpc_web_response(&[], None, Some("x"), Some("%ff"));
    assert_eq!(get_grpc_status(&bad.trailers).code, -1);
    assert_eq!(get_grpc_status(&bad.trailers).message, "");
}

#[test]
fn grpc_status_maps_to_http() {
    let cases: [(i32, u16); 8] =
        [(0, 200), (16, 401), (7, 403), (8, 429), (4, 504), (14, 503), (3, 502), (-1, 502)];
    for (code, http) in cases {
        let s = GrpcStatus { code, message: String::new() };
        assert_eq!(s.http_equiv(), http);
        assert_eq!(s.ok(), code == 0);
    }
}

#[test]
fn url_decoding() {
    assert_eq!(url_decode_or_same("a%20b%2Fc"), "a b/c");
    assert_eq!(url_decode_or_same("plain"), "plain");
    assert_eq!(url_decode_or_same("%ff"), "%ff");
}

#[test]
fn failure_texts_are_classified() {
    assert!(is_auth_related("Unauthorized request"));
    assert!(is_auth_related("bad TOKEN"));
    assert!(is_auth_related("Permission denied"));
    assert!(!is_auth_related("server exploded"));
    assert!(is_payload_decode_error("Failed to decode Protobuf message"));
    assert!(is_payload_decode_error("UpdateUserFeatureControlsRequest.features: bad"));
    assert!(!is_payload_decode_error("decode"));
    assert!(is_field_mask_missing("Field mask must be provided"));
    assert!(!is_field_mask_missing("field mask"));
    assert!(is_invalid_field_mask_path("Unknown path x"));
    assert!(is_invalid_field_mask_path("FieldMask wrong"));
    assert!(!is_invalid_field_mask_path("field mask must be provided"));
    assert!(is_rejected_features_field("invalid field: features"));
    assert!(is_rejected_features_field("Invalid Field"));
    assert!(!is_rejected_features_field("fine"));
    assert!(!is_auth_related(""));
}

#[test]
fn retries_follow_status_and_text() {
    let missing = failure(200, Some(3), Some("field mask must be provided"), None);
    assert!(should_retry_with_alternate_mask_field(&missing));
    assert!(should_retry_with_age_verify(&missing));
    assert!(!should_retry_with_alternate_mask_path(&missing));
    assert!(!should_retry_with_legacy_payload(&missing));
    let by_error = failure(200, Some(3), None, Some("gRPC error: cannot find field x"));
    assert!(should_retry_with_alternate_mask_path(&by_error));
    assert!(!should_retry_with_alternate_mask_field(&by_error));
    let wrong_code = failure(200, Some(5), Some("field mask must be provided"), None);
    assert!(!should_retry_with_alternate_mask_field(&wrong_code));
    let legacy = failure(200, Some(13), Some("invalid wire type"), None);
    assert!(should_retry_with_legacy_payload(&legacy));
    let mut success = failure(200, Some(3), Some("field mask must be provided"), None);
    success.success = true;
    assert!(!should_retry_with_alternate_mask_field(&success));
    assert!(!should_retry_with_fallback(&success));
    assert!(should_retry_with_fallback(&failure(401, None, None, None)));
    assert!(should_retry_with_fallback(&failure(403, None, None, None)));
    assert!(should_retry_with_fallback(&failure(200, Some(16), None, None)));
    assert!(should_retry_with_fallback(&failure(200, Some(7), None, None)));
    assert!(should_retry_with_fallback(&failure(500, None, None, Some("forbidden"))));
    assert!(!should_retry_with_fallback(&failure(500, Some(2), Some("oops"), Some("boom"))));
}

#[test]
fn emulation_names_are_normalized() {
    assert_eq!(normalize_emulation("  Chrome_116 "), "chrome116");
    assert_eq!(normalize_emulation("chrome - 1 1 6"), "chrome116");
    assert!(emulation_equals("Chrome-116", "chrome_116"));
    assert!(!emulation_equals("chrome116", "chrome117"));
    assert!(fallback_needed(&failure(401, None, None, None), "chrome_136"));
    assert!(fallback_needed(&failure(401, None, None, None), ""));
    assert!(!fallback_needed(&failure(401, None, None, None), " CHROME-116"));
    assert!(!fallback_needed(&failure(500, None, None, None), "chrome_136"));
}

#[test]
fn payloads_are_built_byte_for_byte() {
    assert_eq!(
        build_proto_payload(2, "features"),
        vec![0x0A, 4, 8, 1, 0x10, 1, 0x12, 10, 0x0A, 8, b'f', b'e', b'a', b't', b'u', b'r', b'e', b's']
    );
    let alt = build_proto_payload(3, "features.enabled");
    assert_eq!(&alt[..10], &[0x0A, 4, 8, 1, 0x10, 1, 0x1A, 18, 0x0A, 16]);
    assert_eq!(&alt[10..], b"features.enabled");
    assert_eq!(build_proto_payload(2, ""), vec![0x0A, 4, 8, 1, 0x10, 1, 0x12, 2, 0x0A, 0]);
    let long = "x".repeat(254);
    assert_eq!(build_proto_payload(2, &long), vec![0x0A, 4, 8, 1, 0x10, 1]);
    let edge = "x".repeat(253);
    assert_eq!(build_proto_payload(2, &edge).len(), 6 + 4 + 253);
    assert_eq!(build_proto_payload(33, "a")[6], 0x0A);
    assert_eq!(LadderStage::Primary.payload(), Some(build_proto_payload(2, "features")));
    assert_eq!(LadderStage::AlternateField.payload(), Some(build_proto_payload(3, "features")));
    assert_eq!(LadderStage::AlternatePath.payload(), Some(build_proto_payload(2, "features.enabled")));
    assert_eq!(LadderStage::Legacy.payload(), Some(vec![8, 1, 16, 1]));
    assert_eq!(LadderStage::AgeVerify.payload(), None);
}

#[test]
fn ladder_climbs_only_upwards() {
    let missing = failure(200, Some(3), Some("field mask must be provided"), None);
    assert_eq!(next_stage(LadderStage::Primary, &missing), Some(LadderStage::AlternateField));
    assert_eq!(next_stage(LadderStage::AlternateField, &missing), Some(LadderStage::AgeVerify));
    assert_eq!(next_stage(LadderStage::AgeVerify, &missing), None);
    let path = failure(200, Some(3), Some("unknown path"), None);
    assert_eq!(next_stage(LadderStage::Primary, &path), Some(LadderStage::AlternatePath));
    assert_eq!(next_stage(LadderStage::AlternatePath, &path), None);
    let legacy = failure(200, Some(13), None, Some("invalid wire type"));
    assert_eq!(next_stage(LadderStage::AlternateField, &legacy), Some(LadderStage::Legacy));
    assert_eq!(next_stage(LadderStage::Legacy, &legacy), None);
    let other = failure(500, None, None, Some("boom"));
    assert_eq!(next_stage(LadderStage::Primary, &other), None);
    let mut ok = failure(200, Some(3), Some("field mask must be provided"), None);
    ok.success = true;
    assert_eq!(next_stage(LadderStage::Primary, &ok), None);
    assert_eq!(LadderStage::Legacy.rank(), 3);
    assert!(LadderStage::AgeVerify.called_for(&missing));
    assert!(!LadderStage::Primary.called_for(&missing));
}

#[test]
fn failures_are_combined() {
    let first = failure(200, Some(3), None, Some("one"));
    let second = failure(200, Some(13), Some("m"), None);
    let joined = combine_failure(LadderStage::AlternateField, &first, second.clone());
    assert_eq!(
        joined.error.as_deref(),
        Some("primary payload failed: one; alternate mask field failed: unknown")
    );
    assert_eq!(joined.grpc_status, Some(13));
    assert_eq!(joined.grpc_message.as_deref(), Some("m"));
    assert_eq!(
        combine_failure(LadderStage::AlternatePath, &second, first.clone()).error.as_deref(),
        Some("previous payload failed: unknown; alternate mask path failed: one")
    );
    assert_eq!(
        combine_failure(LadderStage::Legacy, &first, first.clone()).error.as_deref(),
        Some("previous payload failed: one; legacy payload failed: one")
    );
    assert_eq!(
        combine_failure(LadderStage::AgeVerify, &first, first.clone()).error.as_deref(),
        Some("gRPC update failed: one; age-verify fallback failed: one")
    );
    assert_eq!(
        combine_fallback(&first, second).error.as_deref(),
        Some("primary attempt failed: one; fallback attempt failed: unknown")
    );
    let t = transport_failure("no route");
    assert_eq!(t.http_status, 0);
    assert!(!t.success);
    assert_eq!(t.error.as_deref(), Some("no route"));
}

#[test]
fn enable_answers_are_interpreted() {
    let refused = interpret_enable_response(403, "text/html", Some("7"), Some("no%20way"), b"<html>\n");
    assert!(!refused.success);
    assert_eq!(refused.http_status, 403);
    assert_eq!(refused.grpc_status, Some(7));
    assert_eq!(refused.grpc_message.as_deref(), Some("no%20way"));
    assert_eq!(refused.error.as_deref(), Some("HTTP 403; content-type: text/html; body: <html>\\n"));
    let ok = interpret_enable_response(200, "application/grpc-web+proto", None, None, &[]);
    assert!(ok.success);
    assert_eq!(ok.grpc_status, Some(-1));
    assert!(ok.grpc_message.is_none());
    assert!(ok.error.is_none());
    let mut body = encode_grpc_web_payload(b"");
    body.extend(frame(0x80, b"grpc-status: 3\r\ngrpc-message: field%20mask must be provided\r\n"));
    let failed = interpret_enable_response(200, "application/grpc-web+proto", Some("0"), None, &body);
    assert!(!failed.success);
    assert_eq!(failed.grpc_status, Some(3));
    assert_eq!(failed.grpc_message.as_deref(), Some("field mask must be provided"));
    assert!(failed.error.as_deref().unwrap().starts_with("gRPC error: code=3, message=field mask must be provided, body="));
    assert!(should_retry_with_alternate_mask_field(&failed));
    let by_header = interpret_enable_response(200, "application/grpc-web+proto", Some("0"), Some("fine%21"), &[]);
    assert!(by_header.success);
    assert_eq!(by_header.grpc_status, Some(0));
    assert_eq!(by_header.grpc_message.as_deref(), Some("fine!"));
    let age_ok = interpret_age_response(200, "application/json", "{}");
    assert!(age_ok.success);
    assert_eq!(age_ok.grpc_status, Some(0));
    assert_eq!(age_ok.grpc_message.as_deref(), Some("fallback age verify success"));
    let age_bad = interpret_age_response(500, "text/plain", "down");
    assert!(!age_bad.success);
    assert_eq!(age_bad.grpc_status, Some(3));
    assert_eq!(age_bad.error.as_deref(), Some("HTTP 500; content-type: text/plain; body: down"));
}

#[test]
fn previews_are_cut_and_escaped() {
    assert_eq!(body_preview("a\tb\n\"c\"\\", 100), "a\\tb\\n\\\"c\\\"\\\\");
    assert_eq!(body_preview("héllo", 3), "h\\u{e9}l");
    assert_eq!(body_preview("abc", 0), "");
    assert_eq!(body_preview_from_bytes(&[b'o', b'k', 0xff], 10), "ok\\u{fffd}");
    assert_eq!(usage_preview(&"x".repeat(300)).len(), 200);
    assert_eq!(decimal_i64(0), "0");
    assert_eq!(decimal_i64(-120), "-120");
    assert_eq!(decimal_i64(i64::MIN), "-9223372036854775808");
    assert_eq!(trim("\u{2003} a b \r\n"), "a b");
}

#[test]
fn json_text_is_normalized() {
    assert_eq!(normalize_json_text("  {\"a\":1}  "), "{\"a\":1}");
    assert_eq!(normalize_json_text("\u{feff}\u{feff} {}"), "{}");
    assert_eq!(normalize_json_text(")]}'\n {\"a\":1}\n"), "{\"a\":1}");
    assert_eq!(normalize_json_text(")]}' {}"), ")]}' {}");
    assert_eq!(normalize_json_text("for (;;);for (;;); [1]"), "[1]");
    assert_eq!(normalize_json_text(")]}'\nfor (;;);{}"), "{}");
    assert_eq!(normalize_json_text("   "), "");
}

#[test]
fn image_helpers() {
    assert_eq!(size_to_aspect_ratio("1024x1024"), "1:1");
    assert_eq!(size_to_aspect_ratio("512x512"), "1:1");
    assert_eq!(size_to_aspect_ratio("256x256"), "1:1");
    assert_eq!(size_to_aspect_ratio("1536x1024"), "3:2");
    assert_eq!(size_to_aspect_ratio("1024x1536"), "2:3");
    assert_eq!(size_to_aspect_ratio("weird"), "2:3");
    assert_eq!(target_count(None, 4), 4);
    assert_eq!(target_count(None, 0), 1);
    assert_eq!(target_count(None, 9), 4);
    assert_eq!(target_count(Some(0), 4), 1);
    assert_eq!(target_count(Some(2), 4), 2);
    assert_eq!(target_count(Some(7), 1), 4);
    assert_eq!(
        extract_image_id("https://assets.example.com/users/u/images/0a1b-c2d3.jpg?x=1").as_deref(),
        Some("0a1b-c2d3")
    );
    assert_eq!(extract_image_id("/images/ABCDEF.png").as_deref(), Some("ABCDEF"));
    assert_eq!(extract_image_id("/images/a/images/b.png"), None);
    assert_eq!(extract_image_id("/images/abc.gif"), None);
    assert_eq!(extract_image_id("/images/.png"), None);
    assert_eq!(extract_image_id("/images/xyz.png"), None);
    assert_eq!(extract_image_id("/pictures/abc.png"), None);
    assert_eq!(extract_image_id("/images/abc"), None);
    assert!(is_final_image("https://h/images/a.jpg?sig=1", 100_001));
    assert!(!is_final_image("https://h/images/a.jpg", 100_000));
    assert!(!is_final_image("https://h/images/a.png", 500_000));
    assert!(is_final_image("a.jpg", 100_001));
    assert_eq!(ImageStage::Medium.word(), "medium");
}

#[test]
fn generation_progress_tracks_images() {
    let mut progress = GenerationProgress::new(2);
    assert_eq!(progress.total(), 2);
    assert!(!progress.check_blocked());
    assert!(progress.on_image("/images/aa.png", "").is_none());
    assert!(progress.on_image("", "blob").is_none());
    assert!(progress.on_image("/nothing/aa.png", "blob").is_none());
    let preview = progress.on_image("/images/aa.png", "tiny").unwrap();
    assert_eq!(preview.image_id, "aa");
    assert_eq!(preview.stage, ImageStage::Preview);
    assert!(!preview.is_final);
    assert_eq!(preview.completed, 0);
    assert_eq!(preview.total, 2);
    assert!(!progress.check_blocked());
    let medium_blob = "m".repeat(30_001);
    let medium = progress.on_image("/images/aa.png", &medium_blob).unwrap();
    assert_eq!(medium.stage, ImageStage::Medium);
    assert!(progress.check_blocked());
    let final_blob = "f".repeat(100_001);
    let done = progress.on_image("/images/aa.jpg", &final_blob).unwrap();
    assert_eq!(done.stage, ImageStage::Final);
    assert!(done.is_final);
    assert_eq!(done.completed, 1);
    assert_eq!(progress.completed(), 1);
    assert!(!progress.check_blocked());
    assert!(progress.on_image("/images/aa.png", "late preview").is_none());
    assert_eq!(progress.images().len(), 1);
    assert_eq!(progress.images().get("aa").unwrap().blob_size, 100_001);
    progress.on_image("/images/bb.jpg", &final_blob).unwrap();
    assert_eq!(progress.completed(), 2);
}

#[test]
fn generation_outcome() {
    let ok = final_outcome(vec!["u".to_string()], vec!["b".to_string()], None, true);
    assert!(ok.success);
    assert_eq!(ok.count, 1);
    let err = final_outcome(Vec::new(), Vec::new(), Some(("code".to_string(), "msg".to_string())), true);
    assert_eq!(err.error_code.as_deref(), Some("code"));
    assert_eq!(err.error.as_deref(), Some("msg"));
    let blocked = final_outcome(Vec::new(), Vec::new(), None, true);
    assert_eq!(blocked.error_code.as_deref(), Some("blocked"));
    assert_eq!(blocked.error.as_deref(), Some("生成被阻止，无法获取最终图片"));
    let nothing = final_outcome(Vec::new(), Vec::new(), None, false);
    assert_eq!(nothing.error_code.as_deref(), Some("generation_failed"));
    assert_eq!(nothing.error.as_deref(), Some("未收到图片数据"));
    let f = ImagineResult::failed("c", "m");
    assert!(!f.success);
    assert_eq!(f.count, 0);
    assert!(f.urls.is_empty());
}

#[test]
fn generation_retries() {
    let mut retry = GenerationRetry::new(0, 2);
    assert!(retry.has_attempts_left());
    match retry.on_result(ImagineResult::failed("blocked", "x")) {
        AttemptOutcome::Retry(reason) => assert_eq!(reason, "blocked - 无法生成最终图片"),
        _ => panic!("a first blocked attempt is retried"),
    }
    assert!(!retry.has_attempts_left());
    assert_eq!(retry.on_exhausted().error.as_deref(), Some("所有重试都失败了"));

    let mut retry = GenerationRetry::new(5, 2);
    retry.on_result(ImagineResult::failed("blocked", "x"));
    match retry.on_result(ImagineResult::failed("blocked", "x")) {
        AttemptOutcome::GiveUp(reason, r) => {
            assert_eq!(reason, "blocked - 无法生成最终图片");
            assert_eq!(r.error_code.as_deref(), Some("blocked"));
            assert_eq!(r.error.as_deref(), Some("连续 2 次被 blocked，请稍后重试"));
        },
        _ => panic!("the second blocked attempt marks its credential and ends the generation"),
    }
    let mut retry = GenerationRetry::new(5, 1);
    match retry.on_result(ImagineResult::failed("blocked", "x")) {
        AttemptOutcome::GiveUp(reason, r) => {
            assert_eq!(reason, "blocked - 无法生成最终图片");
            assert_eq!(r.error.as_deref(), Some("连续 1 次被 blocked，请稍后重试"));
        },
        _ => panic!("with a limit of one the first blocked attempt ends the generation"),
    }

    let mut retry = GenerationRetry::new(5, 3);
    match retry.on_result(ImagineResult::failed("rate_limit_exceeded", "slow")) {
        AttemptOutcome::Retry(reason) => assert_eq!(reason, "slow"),
        _ => panic!("a rate limit is retried"),
    }
    match retry.on_result(ImagineResult::failed("unauthorized", "who")) {
        AttemptOutcome::Retry(reason) => assert_eq!(reason, "who"),
        _ => panic!("a rejected credential is retried"),
    }
    match retry.on_result(ImagineResult::failed("other", "no")) {
        AttemptOutcome::Finish(r) => assert_eq!(r.error_code.as_deref(), Some("other")),
        _ => panic!("an unknown failure ends the generation"),
    }
    assert_eq!(retry.on_no_token().error_code.as_deref(), Some("unauthorized"));
    let fresh = GenerationRetry::new(5, 3);
    let none = fresh.on_no_token();
    assert_eq!(none.error_code.as_deref(), Some("no_available_sso"));
    assert_eq!(none.error.as_deref(), Some("没有可用的 SSO"));
    let mut retry = GenerationRetry::new(5, 3);
    match retry.on_result(ImagineResult::ok(vec!["u".to_string()], vec!["b".to_string()])) {
        AttemptOutcome::Finish(r) => assert!(r.success),
        _ => panic!("a success ends the generation"),
    }
}

#[test]
fn retry_context() {
    let mut ctx = RetryContext::with_limits(2, vec![401, 429, 403]);
    assert!(ctx.should_retry(429));
    assert!(!ctx.should_retry(500));
    assert_eq!(ctx.on_failure(None), None);
    assert_eq!(ctx.attempt, 0);
    assert_eq!(ctx.on_failure(Some(401)), Some(1_000));
    assert_eq!(ctx.attempt, 1);
    assert_eq!(ctx.on_failure(Some(401)), None);
    assert_eq!(ctx.attempt, 2);
    let mut once = RetryContext::with_limits(3, vec![429]);
    assert_eq!(once.on_failure(Some(500)), None);
    assert_eq!(once.on_failure(Some(429)), Some(1_500));
    let none = RetryContext::with_limits(0, vec![429]);
    assert!(!none.should_retry(429));
}

#[test]
fn bearer_keys() {
    assert_eq!(extract_bearer(Some("Bearer  abc ")).as_deref(), Some("abc"));
    assert_eq!(extract_bearer(Some("bearer abc")), None);
    assert_eq!(extract_bearer(Some("Bearer")), None);
    assert_eq!(extract_bearer(None), None);
    assert!(verify_api_key("", None).is_ok());
    assert!(verify_api_key("k", Some("Bearer k")).is_ok());
    let wrong = verify_api_key("k", Some("Bearer x")).unwrap_err();
    assert_eq!(wrong.status, 401);
    assert_eq!(wrong.body.message, "Invalid authentication token");
    assert_eq!(wrong.body.error_type, ErrorType::AuthenticationError);
    let missing = verify_api_key("k", Some("Basic k")).unwrap_err();
    assert_eq!(missing.body.message, "Missing authentication token");
    let unset = verify_app_key("", Some("Bearer k")).unwrap_err();
    assert_eq!(unset.body.message, "App key is not configured");
    assert!(verify_app_key("k", Some("Bearer k")).is_ok());
    assert!(verify_app_key("k", None).is_err());
    assert!(verify_stream_api_key("", None).is_ok());
    assert!(verify_stream_api_key("k", Some(" k ")).is_ok());
    assert!(verify_stream_api_key("k", Some("Bearer k")).is_ok());
    assert!(verify_stream_api_key("k", Some("x")).is_err());
    assert_eq!(verify_stream_api_key("k", None).unwrap_err().body.message, "Invalid authentication token");
}

#[test]
fn errors_carry_status_and_code() {
    let cases: Vec<(ApiError, u16, ErrorType, &str)> = vec![
        (ApiError::invalid_request("m"), 400, ErrorType::InvalidRequestError, "invalid_value"),
        (ApiError::authentication("m"), 401, ErrorType::AuthenticationError, "invalid_api_key"),
        (ApiError::permission("m"), 403, ErrorType::PermissionError, "insufficient_quota"),
        (ApiError::not_found("m"), 404, ErrorType::NotFoundError, "model_not_found"),
        (ApiError::rate_limit("m"), 429, ErrorType::RateLimitError, "rate_limit_exceeded"),
        (ApiError::server("m"), 500, ErrorType::ServerError, "internal_error"),
        (ApiError::upstream("m"), 502, ErrorType::ServerError, "upstream_error"),
    ];
    for (e, status, kind, code) in cases {
        assert_eq!(e.status, status);
        assert_eq!(e.body.error_type, kind);
        assert_eq!(e.body.code.as_deref(), Some(code));
        assert_eq!(e.message(), "m");
        assert!(e.body.param.is_none());
    }
    let e = ApiError::new(418, "tea", ErrorType::ServiceUnavailableError).with_param("p").with_code("c");
    assert_eq!(e.body.param.as_deref(), Some("p"));
    assert_eq!(e.body.code.as_deref(), Some("c"));
    assert_eq!(ErrorType::RateLimitError.word(), "rate_limit_error");
    assert_eq!(ErrorType::ServiceUnavailableError.word(), "service_unavailable_error");
    assert_eq!(StorageError("lock timeout: x".to_string()).message(), "lock timeout: x");
}

#[test]
fn image_formats() {
    assert_eq!(ImageOutputFormat::parse(" URL "), Some(ImageOutputFormat::Url));
    assert_eq!(ImageOutputFormat::parse("b64_json"), Some(ImageOutputFormat::Base64));
    assert_eq!(ImageOutputFormat::parse("Base64"), Some(ImageOutputFormat::Base64));
    assert_eq!(ImageOutputFormat::parse("png"), None);
    assert!(ImageOutputFormat::Base64.is_base64());
    assert!(!ImageOutputFormat::Url.is_base64());
    assert_eq!(resolve_image_output_format(Some("b64_json"), "url").unwrap(), ImageOutputFormat::Base64);
    assert_eq!(resolve_image_output_format(Some("  "), "base64").unwrap(), ImageOutputFormat::Base64);
    assert_eq!(resolve_image_output_format(None, "nonsense").unwrap(), ImageOutputFormat::Url);
    let err = resolve_image_output_format(Some("png"), "url").unwrap_err();
    assert_eq!(err.status, 400);
    assert_eq!(err.body.message, "response_format must be one of: url, b64_json");
    assert_eq!(err.body.param.as_deref(), Some("response_format"));
    assert!(valid_role("assistant"));
    assert!(!valid_role("robot"));
    assert!(user_content_type("input_audio"));
    assert!(!user_content_type("video"));
}

#[test]
fn emulations_are_parsed() {
    let chrome = |v: u16| Emulation { browser: Browser::Chrome, version: v };
    assert_eq!(parse_emulation(""), chrome(136));
    assert_eq!(parse_emulation("   "), chrome(136));
    assert_eq!(parse_emulation("chrome_116"), chrome(116));
    assert_eq!(parse_emulation(" Chrome-143 "), chrome(143));
    assert_eq!(parse_emulation("chrome"), chrome(136));
    assert_eq!(parse_emulation("chrome102"), chrome(136));
    assert_eq!(parse_emulation("chrome0116"), chrome(136));
    assert_eq!(parse_emulation("chrome 120 beta 7"), chrome(120));
    assert_eq!(parse_emulation("edge-122"), Emulation { browser: Browser::Edge, version: 122 });
    assert_eq!(parse_emulation("edge99"), Emulation { browser: Browser::Edge, version: 136 });
    assert_eq!(parse_emulation("FIREFOX_146"), Emulation { browser: Browser::Firefox, version: 146 });
    assert_eq!(parse_emulation("firefox"), Emulation { browser: Browser::Firefox, version: 136 });
    assert_eq!(parse_emulation("safari_17_2_1"), Emulation { browser: Browser::Safari, version: 1721 });
    assert_eq!(parse_emulation("Safari16"), Emulation { browser: Browser::Safari, version: 16 });
    assert_eq!(parse_emulation("safari18"), chrome(136));
    assert_eq!(parse_emulation("safari016"), chrome(136));
    assert_eq!(parse_emulation("opera"), chrome(136));
    assert_eq!(request_timeout_secs(0), 1);
    assert_eq!(request_timeout_secs(30), 30);
    assert_eq!(connect_timeout_secs(1), 5);
    assert_eq!(connect_timeout_secs(10), 10);
    assert_eq!(connect_timeout_secs(120), 30);
    assert_eq!(proxy_of(Some("  http://p:1 ")).as_deref(), Some("http://p:1"));
    assert_eq!(proxy_of(Some("  ")), None);
    assert_eq!(proxy_of(None), None);
}

#[test]
fn statsig_identifiers() {
    let fixed = StatsigService::gen_id(false);
    let decoded = base64::engine::general_purpose::STANDARD.decode(&fixed).unwrap();
    assert_eq!(
        String::from_utf8(decoded).unwrap(),
        "e:TypeError: Cannot read properties of undefined (reading 'childNodes')"
    );
    let mut forms = [false, false];
    for _ in 0..200 {
        let id = StatsigService::gen_id(true);
        let text = String::from_utf8(base64::engine::general_purpose::STANDARD.decode(&id).unwrap()).unwrap();
        if let Some(rest) = text.strip_prefix("e:TypeError: Cannot read properties of null (reading 'children[\"") {
            let random = rest.strip_suffix("\"]')").unwrap();
            assert_eq!(random.len(), 5);
            assert!(random.chars().all(|c| c.is_ascii_lowercase() || c.is_ascii_digit()));
            forms[0] = true;
        } else {
            let rest = text.strip_prefix("e:TypeError: Cannot read properties of undefined (reading '").unwrap();
            let random = rest.strip_suffix("')").unwrap();
            assert_eq!(random.len(), 10);
            assert!(random.chars().all(|c| c.is_ascii_lowercase()));
            forms[1] = true;
        }
    }
    assert!(forms[0] && forms[1]);
    assert_eq!(StatsigService::rand_str(7, true).len(), 7);
    assert!(StatsigService::rand_str(0, false).is_empty());
}

#[test]
fn white_space_is_what_the_standard_library_takes_for_it() {
    for n in 0..=0x10ffffu32 {
        if let Some(c) = char::from_u32(n) {
            assert_eq!(char_is_whitespace(c), c.is_whitespace(), "U+{n:04X}");
        }
    }
    assert_eq!(trim(" \t\u{3000}a b\u{a0}\n"), "a b");
}

#[test]
fn numbers_are_read_as_the_standard_library_reads_them() {
    let texts = [
        "", "+", "-", "0", "-0", "+0", "7", "+7", "-7", "007", "12", "2147483647", "2147483648",
        "-2147483648", "-2147483649", "+2147483647", "99999999999999999999", "-99999999999999999999",
        " 1", "1 ", "1a", "a1", "--1", "+-1", "1.0", "١", "1_000", "0x10", "-", "００",
    ];
    for text in texts {
        assert_eq!(parse_i32(text), text.parse::<i32>().ok(), "{text:?}");
    }
    for n in [-2147483648i64, -1000, -1, 0, 1, 16, 2147483647] {
        assert_eq!(parse_i32(&n.to_string()), Some(n as i32));
    }
    assert_eq!(parse_i32("12"), Some(12));
    assert_eq!(parse_i32("-2147483648"), Some(i32::MIN));
    assert_eq!(parse_i32("2147483648"), None);
}

#[test]
fn characters_are_escaped_as_the_standard_library_escapes_them() {
    for n in 0..=0x10ffffu32 {
        if let Some(c) = char::from_u32(n) {
            let expected: String = c.escape_default().collect();
            assert_eq!(escape_default(c), expected, "U+{n:04X}");
        }
    }
    assert_eq!(escape_default('\n'), "\\n");
    assert_eq!(escape_default('"'), "\\\"");
    assert_eq!(escape_default('a'), "a");
    assert_eq!(escape_default('\u{0}'), "\\u{0}");
    assert_eq!(escape_default('é'), "\\u{e9}");
    assert_eq!(escape_default('\u{10ffff}'), "\\u{10ffff}");
}
