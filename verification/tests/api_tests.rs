use grok2api::api::v1::admin::{
    clean_tokens, collect_tokens, mask_token, plan_batch, summarize, truncation_warning,
};
use grok2api::api::v1::chat::{validate_request, ChatMessage, ContentBlock, MessageContent};
use grok2api::common::string_map::StringMap;
use grok2api::services::grok::assets::{
    build_video_html, cache_file_name, header_value, is_url, parse_data_uri, public_url,
    HeaderPair,
};
use grok2api::services::grok::chat::{
    join, ExtractBlock, ExtractContent, ExtractMessage, MessageExtractor,
};
use grok2api::services::grok::wreq_client::LineBuffer;
use grok2api::services::grok::headers::{
    account_cookie, account_headers, api_headers, download_headers, effort_for, session_cookie,
    strip_sso,
};
use grok2api::services::grok::imagine_nsfw::GenerationProgress;
use grok2api::services::grok::model::Cost;
use grok2api::services::token::models::EffortType;

fn strings(items: &[&str]) -> Vec<String> {
    items.iter().map(|s| s.to_string()).collect()
}

fn text_message(role: &str, text: &str) -> ChatMessage {
    ChatMessage { role: role.to_string(), content: MessageContent::Text(text.to_string()) }
}

fn block(kind: &str) -> ContentBlock {
    ContentBlock {
        is_null: false,
        block_type: kind.to_string(),
        text: "hello".to_string(),
        has_image_url: true,
        has_audio_data: true,
        has_file_ref: true,
    }
}

fn blocks_message(role: &str, blocks: Vec<ContentBlock>) -> ChatMessage {
    ChatMessage { role: role.to_string(), content: MessageContent::Blocks(blocks) }
}

fn error_of(messages: Vec<ChatMessage>) -> (String, String) {
    let e = validate_request("grok-3", &messages).unwrap_err();
    assert_eq!(e.status, 400);
    assert_eq!(e.body.code.as_deref(), Some("invalid_value"));
    (e.body.message, e.body.param.unwrap())
}

#[test]
fn tokens_are_collected_cleaned_and_planned() {
    assert_eq!(
        collect_tokens(Some("a".to_string()), Some(strings(&["b", "c"]))),
        strings(&["a", "b", "c"])
    );
    assert_eq!(collect_tokens(None, Some(strings(&["b"]))), strings(&["b"]));
    assert_eq!(collect_tokens(Some("a".to_string()), None), strings(&["a"]));
    assert!(collect_tokens(None, None).is_empty());
    assert_eq!(
        clean_tokens(&strings(&[" a ", "a", "", "  ", "a", "b", "a", "b ", "b"])),
        strings(&["a", "b", "a", "b"])
    );
    assert!(clean_tokens(&strings(&["", " "])).is_empty());
    let plan = plan_batch(strings(&["a", "b", "c"]), 2);
    assert_eq!(plan.tokens, strings(&["a", "b"]));
    assert!(plan.truncated);
    assert_eq!(plan.original_count, 3);
    let whole = plan_batch(strings(&["a", "b"]), 2);
    assert_eq!(whole.tokens, strings(&["a", "b"]));
    assert!(!whole.truncated);
    assert_eq!(truncation_warning(1000, 1234), "数量超出限制，仅处理前 1000 个（共 1234 个）");
}

#[test]
fn secrets_are_masked() {
    assert_eq!(mask_token("short"), "short");
    assert_eq!(mask_token("12345678901234567890"), "12345678901234567890");
    assert_eq!(mask_token("abcdefgh-----ijklmnop"), "abcdefgh...ijklmnop");
    assert_eq!(mask_token(""), "");
}

#[test]
fn outcomes_are_summed_up() {
    let s = summarize(5, &vec![true, false, true, true]);
    assert_eq!(s.total, 5);
    assert_eq!(s.ok, 3);
    assert_eq!(s.fail, 1);
    let none = summarize(0, &Vec::new());
    assert_eq!((none.ok, none.fail), (0, 0));
}

#[test]
fn valid_requests_pass() {
    let messages = vec![
        text_message("system", "be kind"),
        blocks_message("user", vec![block("text"), block("image_url"), block("input_audio"), block("file")]),
        blocks_message("assistant", vec![block("text")]),
        ChatMessage { role: "developer".to_string(), content: MessageContent::Other },
    ];
    assert!(validate_request("grok-3", &messages).is_ok());
    assert!(validate_request("grok-4-heavy", &Vec::new()).is_ok());
}

#[test]
fn unknown_model_is_not_found() {
    let e = validate_request("gpt-9", &vec![text_message("user", "hi")]).unwrap_err();
    assert_eq!(e.status, 404);
    assert_eq!(e.body.message, "The model `gpt-9` does not exist or you do not have access to it.");
    assert_eq!(e.body.param.as_deref(), Some("model"));
    assert_eq!(e.body.code.as_deref(), Some("model_not_found"));
}

#[test]
fn messages_are_checked_in_order() {
    assert_eq!(
        error_of(vec![text_message("user", "hi"), text_message("robot", "hi")]),
        (
            "role must be one of [\"developer\", \"system\", \"user\", \"assistant\"]".to_string(),
            "messages.1.role".to_string()
        )
    );
    assert_eq!(
        error_of(vec![ChatMessage { role: "user".to_string(), content: MessageContent::Missing }]),
        ("Message content cannot be empty".to_string(), "messages.0.content".to_string())
    );
    assert_eq!(
        error_of(vec![text_message("user", "  \n")]),
        ("Message content cannot be empty".to_string(), "messages.0.content".to_string())
    );
    assert_eq!(
        error_of(vec![blocks_message("user", Vec::new())]),
        ("Message content cannot be an empty array".to_string(), "messages.0.content".to_string())
    );
    assert_eq!(
        error_of(vec![text_message("robot", ""), text_message("user", "")]).1,
        "messages.0.role"
    );
}

#[test]
fn blocks_are_checked_in_order() {
    let mut null = block("text");
    null.is_null = true;
    assert_eq!(
        error_of(vec![blocks_message("user", vec![block("text"), null])]),
        ("Content block cannot be empty".to_string(), "messages.0.content.1".to_string())
    );
    assert_eq!(
        error_of(vec![blocks_message("user", vec![block("")])]),
        ("Content block 'type' cannot be empty".to_string(), "messages.0.content.0.type".to_string())
    );
    assert_eq!(
        error_of(vec![blocks_message("user", vec![block("video")])]),
        ("Invalid content block type: 'video'".to_string(), "messages.0.content.0.type".to_string())
    );
    assert_eq!(
        error_of(vec![text_message("user", "x"), blocks_message("system", vec![block("image_url")])]),
        (
            "The `system` role only supports 'text' type, got 'image_url'".to_string(),
            "messages.1.content.0.type".to_string()
        )
    );
    let mut empty_text = block("text");
    empty_text.text = " ".to_string();
    assert_eq!(
        error_of(vec![blocks_message("assistant", vec![empty_text])]),
        ("Text content cannot be empty".to_string(), "messages.0.content.0.text".to_string())
    );
    let mut no_url = block("image_url");
    no_url.has_image_url = false;
    assert_eq!(
        error_of(vec![blocks_message("user", vec![no_url])]),
        ("image_url must have a 'url' field".to_string(), "messages.0.content.0.image_url".to_string())
    );
    let mut no_audio = block("input_audio");
    no_audio.has_audio_data = false;
    assert_eq!(
        error_of(vec![blocks_message("user", vec![no_audio])]),
        (
            "input_audio must have a 'data' field".to_string(),
            "messages.0.content.0.input_audio".to_string()
        )
    );
    let mut no_file = block("file");
    no_file.has_file_ref = false;
    let many: Vec<ContentBlock> = (0..12).map(|_| block("text")).chain([no_file]).collect();
    assert_eq!(
        error_of(vec![blocks_message("user", many)]),
        ("file must have a 'url' or 'data' field".to_string(), "messages.0.content.12.file".to_string())
    );
}

#[test]
fn cookies_and_efforts() {
    assert_eq!(strip_sso("sso=abc"), "abc");
    assert_eq!(strip_sso("sso=sso=abc"), "sso=abc");
    assert_eq!(strip_sso("abc"), "abc");
    assert_eq!(session_cookie("sso=abc", ""), "sso=abc");
    assert_eq!(session_cookie("abc", "cf"), "sso=abc;cf_clearance=cf");
    assert_eq!(account_cookie("sso=abc", "  "), "sso=abc; sso-rw=abc");
    assert_eq!(account_cookie("abc", " cf "), "sso=abc; sso-rw=abc; cf_clearance=cf");
    assert_eq!(effort_for(Cost::High), EffortType::High);
    assert_eq!(effort_for(Cost::Low), EffortType::Low);
}

#[test]
fn headers_are_listed() {
    let h = api_headers("sso=tok", "https://grok.com/x", "stat", "req-1", "cf");
    assert_eq!(h.len(), 23);
    assert_eq!((h[0].name.as_str(), h[0].value.as_str()), ("Accept", "*/*"));
    assert_eq!((h[9].name.as_str(), h[9].value.as_str()), ("Referer", "https://grok.com/x"));
    assert_eq!((h[14].name.as_str(), h[14].value.as_str()), ("Sec-Ch-Ua-Model", ""));
    assert_eq!(h[19].name, "User-Agent");
    assert!(h[19].value.ends_with("Chrome/136.0.0.0 Safari/537.36"));
    assert_eq!((h[20].name.as_str(), h[20].value.as_str()), ("x-statsig-id", "stat"));
    assert_eq!((h[21].name.as_str(), h[21].value.as_str()), ("x-xai-request-id", "req-1"));
    assert_eq!((h[22].name.as_str(), h[22].value.as_str()), ("Cookie", "sso=tok;cf_clearance=cf"));
    let d = download_headers("tok", "");
    assert_eq!(d.len(), 9);
    assert_eq!((d[7].name.as_str(), d[7].value.as_str()), ("Cookie", "sso=tok"));
    assert_eq!((d[8].name.as_str(), d[8].value.as_str()), ("Referer", "https://grok.com/"));
    let a = account_headers("tok", "");
    assert_eq!(a.len(), 8);
    assert_eq!((a[1].name.as_str(), a[1].value.as_str()), ("content-type", "application/grpc-web+proto"));
    assert_eq!((a[7].name.as_str(), a[7].value.as_str()), ("cookie", "sso=tok; sso-rw=tok"));
}

#[test]
fn file_names_and_addresses() {
    assert!(is_url("http://a"));
    assert!(is_url("https://a"));
    assert!(!is_url("ftp://a"));
    assert!(!is_url("HTTP://a"));
    assert_eq!(
        parse_data_uri("data:image/png;base64, QUJD \n"),
        ("QUJD".to_string(), "image/png".to_string())
    );
    assert_eq!(parse_data_uri("data:,x"), ("x".to_string(), "".to_string()));
    assert_eq!(
        parse_data_uri("data:text/plain"),
        ("data:text/plain".to_string(), "application/octet-stream".to_string())
    );
    assert_eq!(
        parse_data_uri("  QUJD "),
        ("QUJD".to_string(), "application/octet-stream".to_string())
    );
    assert_eq!(cache_file_name("//users/u/generated/a.png"), "users-u-generated-a.png");
    assert_eq!(cache_file_name("a.png"), "a.png");
    assert_eq!(cache_file_name("/"), "");
    assert_eq!(public_url("", "a/b.png"), "https://assets.grok.com/a/b.png");
    assert_eq!(public_url("", "/a/b.png"), "https://assets.grok.com/a/b.png");
    assert_eq!(public_url("https://me.example//", "a.png"), "https://me.example/v1/files/a.png");
    assert_eq!(public_url("https://me.example", "/a.png"), "https://me.example/v1/files/a.png");
    let headers = vec![
        HeaderPair { name: "Content-Type".to_string(), value: "a/b".to_string() },
        HeaderPair { name: "content-type".to_string(), value: "c/d".to_string() },
    ];
    assert_eq!(header_value(&headers, "CONTENT-TYPE").as_deref(), Some("a/b"));
    assert_eq!(header_value(&headers, "x-none"), None);
    assert_eq!(
        build_video_html("v.mp4", ""),
        "<video id=\"video\" controls=\"\" preload=\"none\">\n  <source id=\"mp4\" src=\"v.mp4\" type=\"video/mp4\">\n</video>"
    );
    assert_eq!(
        build_video_html("v.mp4", "t.jpg"),
        "<video id=\"video\" controls=\"\" preload=\"none\" poster=\"t.jpg\">\n  <source id=\"mp4\" src=\"v.mp4\" type=\"video/mp4\">\n</video>"
    );
}

#[test]
fn images_are_kept_final_first_then_larger() {
    let mut progress = GenerationProgress::new(4);
    progress.on_image("/images/a1.png", &"x".repeat(10)).unwrap();
    progress.on_image("/images/b2.jpg", &"x".repeat(100_001)).unwrap();
    progress.on_image("/images/c3.png", &"x".repeat(40_000)).unwrap();
    progress.on_image("/images/d4.jpg", &"x".repeat(200_000)).unwrap();
    progress.on_image("/images/e5.png", &"x".repeat(300_000)).unwrap();
    let order = progress.keep_order();
    let images = progress.images();
    let ids: Vec<&str> = order.iter().map(|i| images.value_at(*i).image_id.as_str()).collect();
    assert_eq!(ids, vec!["d4", "b2", "e5", "c3", "a1"]);
    assert!(GenerationProgress::new(1).keep_order().is_empty());
}

#[test]
fn string_map_is_taken_apart() {
    let mut m: StringMap<u8> = StringMap::new();
    m.insert("x", 1);
    m.insert("y", 2);
    m.insert("x", 3);
    let (keys, values) = m.into_parts();
    assert_eq!(keys, strings(&["x", "y"]));
    assert_eq!(values, vec![3, 2]);
}

#[test]
fn prompt_is_made_of_the_messages() {
    let text = |role: Option<&str>, t: &str| ExtractMessage {
        role: role.map(|r| r.to_string()),
        content: ExtractContent::Text(t.to_string()),
    };
    let blk = |kind: &str, t: Option<&str>, r: Option<&str>| ExtractBlock {
        block_type: kind.to_string(),
        text: t.map(|s| s.to_string()),
        reference: r.map(|s| s.to_string()),
    };
    assert_eq!(join(&strings(&["a", "b", "c"]), ", "), "a, b, c");
    assert_eq!(join(&strings(&["a"]), ", "), "a");
    assert_eq!(join(&Vec::new(), ", "), "");

    let messages = vec![
        text(Some("system"), "be kind"),
        text(Some("user"), "first"),
        text(Some("assistant"), "  "),
        ExtractMessage {
            role: None,
            content: ExtractContent::Blocks(vec![
                blk("text", Some("look"), None),
                blk("image_url", None, Some("http://img")),
                blk("text", Some(" "), None),
                blk("text", Some("closely"), None),
                blk("file", None, Some("")),
                blk("input_audio", None, Some("AAAA")),
                blk("other", Some("x"), Some("y")),
            ]),
        },
        text(Some(""), "anonymous"),
        ExtractMessage { role: Some("user".to_string()), content: ExtractContent::Missing },
    ];
    let x = MessageExtractor::extract(&messages, false).unwrap();
    assert_eq!(x.prompt, "system: be kind\n\nuser: first\n\nlook\nclosely\n\nuser: anonymous");
    let got: Vec<(&str, &str)> =
        x.attachments.iter().map(|a| (a.kind.as_str(), a.data.as_str())).collect();
    assert_eq!(got, vec![("image", "http://img"), ("audio", "AAAA")]);

    let refused = MessageExtractor::extract(&messages, true).unwrap_err();
    assert_eq!(refused.status, 400);
    assert_eq!(refused.body.message, "视频模型不支持 file 类型");
    let audio_first = vec![ExtractMessage {
        role: Some("user".to_string()),
        content: ExtractContent::Blocks(vec![blk("input_audio", None, None), blk("file", None, None)]),
    }];
    assert_eq!(
        MessageExtractor::extract(&audio_first, true).unwrap_err().body.message,
        "视频模型不支持 input_audio 类型"
    );
    let empty = MessageExtractor::extract(&Vec::new(), true).unwrap();
    assert_eq!(empty.prompt, "");
    assert!(empty.attachments.is_empty());
    let no_user = MessageExtractor::extract(&vec![text(Some("system"), "s")], false).unwrap();
    assert_eq!(no_user.prompt, "system: s");
}

#[test]
fn bodies_are_cut_into_lines() {
    let mut lines = LineBuffer::new();
    assert!(lines.push(b"da").is_empty());
    assert_eq!(lines.push(b"ta: 1\r\n\ndata: 2\nda"), strings(&["data: 1", "", "data: 2"]));
    assert_eq!(lines.push(b"ta: 3\r"), Vec::<String>::new());
    assert_eq!(lines.push(b"\n"), strings(&["data: 3"]));
    assert_eq!(lines.push(b"\r\r\n"), strings(&["\r"]));
    assert!(lines.push(b"tail").is_empty());
    assert_eq!(lines.finish().as_deref(), Some("tail"));
    assert_eq!(LineBuffer::new().finish(), None);
}
