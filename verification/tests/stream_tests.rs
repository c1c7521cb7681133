use grok2api::api::v1::responses::{
    data_payload, data_payloads, normalize_block, plan_input, total_tokens, ChatBlock, InputBlock,
    InputForm, InputPlan,
};
use grok2api::api::v1::admin::mask_account;
use grok2api::services::grok::assets::{
    cache_overflow, data_address, download_lock_name, mime_of, page_range, rooted, sorted_order,
    trim_end_slashes, PageWalk,
};
use grok2api::services::grok::chat::{Attachment, ChatService};
use grok2api::services::grok::media::VideoService;
use grok2api::services::grok::processor::{
    image_line, image_name, image_progress, is_filtered, media_link, seconds_of, strip_data_head,
    video_progress, BaseProcessor, Chunk, CollectProcessor, ImageCollectProcessor, ImageNote,
    ImageStep, ImageStreamProcessor, ModelReply, Piece, StreamProcessor, UpstreamEvent,
    VideoCollectProcessor, VideoNote, VideoStreamProcessor,
};

fn event() -> UpstreamEvent {
    UpstreamEvent {
        model_hash: None,
        response_id: None,
        image: None,
        reply: None,
        video: None,
        token: None,
    }
}

fn token_event(token: &str) -> UpstreamEvent {
    UpstreamEvent { token: Some(token.to_string()), ..event() }
}

fn texts(chunks: &[Chunk]) -> Vec<String> {
    chunks
        .iter()
        .map(|c| match &c.piece {
            Piece::Role => "<role>".to_string(),
            Piece::Text(t) => t.clone(),
            Piece::Image { name, url } => format!("<image {name} {url}>"),
            Piece::Video { video_url, thumbnail_url } => {
                format!("<video {video_url} {thumbnail_url}>")
            }
            Piece::Stop => "<stop>".to_string(),
            Piece::Done => "<done>".to_string(),
        })
        .collect()
}

#[test]
fn image_name_is_the_part_between_the_last_slashes() {
    assert_eq!(image_name("https://host/users/abc/image.jpg"), "abc");
    assert_eq!(image_name("a/b"), "a");
    assert_eq!(image_name("/x"), "");
    assert_eq!(image_name("plain"), "plain");
    assert_eq!(image_name(""), "");
}

#[test]
fn progress_lines_are_exact() {
    assert_eq!(image_progress(0, 50), "正在生成第1张图片中，当前进度50%\n");
    assert_eq!(
        image_progress(i64::MAX, -3),
        "正在生成第9223372036854775808张图片中，当前进度-3%\n"
    );
    assert_eq!(video_progress(100), "正在生成视频中，当前进度100%\n");
    assert_eq!(image_line("abc", "https://x/y"), "![abc](https://x/y)\n");
}

#[test]
fn tokens_with_a_tag_are_filtered() {
    let tags = vec!["xaiartifact".to_string(), "grok:render".to_string()];
    assert!(is_filtered(&tags, "<xaiartifact>"));
    assert!(!is_filtered(&tags, "hello"));
    assert!(!is_filtered(&Vec::new(), "hello"));
    assert!(is_filtered(&vec![String::new()], "hello"));
}

#[test]
fn chat_stream_opens_once_and_passes_tokens() {
    let mut state = StreamProcessor::new(vec!["secret".to_string()], false);
    let first = UpstreamEvent {
        response_id: Some("r1".to_string()),
        model_hash: Some("h1".to_string()),
        ..token_event("Hel")
    };
    let chunks = state.on_event(&first);
    assert_eq!(texts(&chunks), vec!["<role>", "Hel"]);
    assert_eq!(chunks[0].response_id.as_deref(), Some("r1"));
    assert_eq!(chunks[0].fingerprint, "h1");
    let chunks = state.on_event(&token_event("lo"));
    assert_eq!(texts(&chunks), vec!["lo"]);
    assert_eq!(chunks[0].response_id.as_deref(), Some("r1"));
    assert!(state.on_event(&token_event("a secret b")).is_empty());
    assert!(state.on_event(&token_event("")).is_empty());
    let later = UpstreamEvent { model_hash: Some("h2".to_string()), ..event() };
    assert!(state.on_event(&later).is_empty());
    assert_eq!(state.fingerprint, "h1");
    assert_eq!(texts(&state.finish()), vec!["<stop>", "<done>"]);
}

#[test]
fn chat_stream_wraps_image_progress_in_thoughts() {
    let mut state = StreamProcessor::new(Vec::new(), true);
    let note = UpstreamEvent { image: Some(ImageNote { index: 1, progress: 30 }), ..event() };
    assert_eq!(
        texts(&state.on_event(&note)),
        vec!["<role>", "<think>\n", "正在生成第2张图片中，当前进度30%\n"]
    );
    assert!(state.think_opened);
    assert_eq!(texts(&state.on_event(&note)), vec!["正在生成第2张图片中，当前进度30%\n"]);
    let reply = UpstreamEvent {
        reply: Some(ModelReply {
            message: Some("done".to_string()),
            image_urls: vec!["https://h/u/id1/a.jpg".to_string(), "b".to_string()],
            model_hash: Some("h9".to_string()),
        }),
        token: Some("ignored".to_string()),
        ..event()
    };
    let chunks = state.on_event(&reply);
    assert_eq!(
        texts(&chunks),
        vec!["done\n", "</think>\n", "<image id1 https://h/u/id1/a.jpg>", "<image b b>"]
    );
    assert_eq!(chunks[3].fingerprint, "");
    assert!(!state.think_opened);
    assert_eq!(state.fingerprint, "h9");
    assert_eq!(texts(&state.finish()), vec!["<stop>", "<done>"]);
}

#[test]
fn chat_stream_closes_open_thoughts_at_the_end() {
    let mut state = StreamProcessor::new(Vec::new(), true);
    let note = UpstreamEvent { image: Some(ImageNote { index: 0, progress: 1 }), ..event() };
    state.on_event(&note);
    assert_eq!(texts(&state.finish()), vec!["</think>\n", "<stop>", "<done>"]);
    let mut quiet = StreamProcessor::new(Vec::new(), false);
    assert_eq!(texts(&quiet.on_event(&note)), vec!["<role>"]);
    assert!(!quiet.think_opened);
}

#[test]
fn chat_collect_gathers_the_content() {
    let mut state = CollectProcessor::new();
    let first = UpstreamEvent {
        response_id: Some("r1".to_string()),
        model_hash: Some("h1".to_string()),
        ..token_event("Hi ")
    };
    state.on_event(&first, &Vec::new());
    let reply = UpstreamEvent {
        model_hash: Some("h2".to_string()),
        reply: Some(ModelReply {
            message: Some("there".to_string()),
            image_urls: vec!["u1".to_string(), "u2".to_string()],
            model_hash: Some("h3".to_string()),
        }),
        token: Some("!".to_string()),
        ..event()
    };
    state.on_event(&reply, &vec!["l1".to_string(), "l2".to_string()]);
    assert_eq!(state.content, "Hi there![](l1)\n![](l2)\n!");
    assert_eq!(state.response_id, "r1");
    assert_eq!(state.fingerprint, "h1");
    state.on_event(&token_event("x"), &vec!["dropped".to_string()]);
    assert_eq!(state.content, "Hi there![](l1)\n![](l2)\n!x");
}

#[test]
fn video_stream_shows_the_video_when_it_is_done() {
    let mut state = VideoStreamProcessor::new(true);
    let going = UpstreamEvent {
        response_id: Some("v1".to_string()),
        video: Some(VideoNote {
            progress: 40,
            video_url: String::new(),
            thumbnail_url: String::new(),
        }),
        ..event()
    };
    assert_eq!(
        texts(&state.on_event(&going)),
        vec!["<role>", "<think>\n", "正在生成视频中，当前进度40%\n"]
    );
    let done = UpstreamEvent {
        video: Some(VideoNote {
            progress: 100,
            video_url: "https://h/v.mp4".to_string(),
            thumbnail_url: "t.jpg".to_string(),
        }),
        ..event()
    };
    let chunks = state.on_event(&done);
    assert_eq!(
        texts(&chunks),
        vec!["正在生成视频中，当前进度100%\n", "</think>\n", "<video https://h/v.mp4 t.jpg>"]
    );
    assert_eq!(chunks[2].response_id.as_deref(), Some("v1"));
    assert_eq!(texts(&state.finish()), vec!["<stop>", "<done>"]);

    let mut quiet = VideoStreamProcessor::new(false);
    assert_eq!(texts(&quiet.on_event(&done)), vec!["<role>", "<video https://h/v.mp4 t.jpg>"]);
    assert!(quiet.on_event(&token_event("x")).is_empty());
}

#[test]
fn video_collect_keeps_the_last_video() {
    let mut state = VideoCollectProcessor::new();
    let going = UpstreamEvent {
        response_id: Some("v0".to_string()),
        video: Some(VideoNote {
            progress: 99,
            video_url: "u".to_string(),
            thumbnail_url: String::new(),
        }),
        ..event()
    };
    assert!(!state.on_event(&going));
    assert_eq!(state.response_id, "");
    let done = UpstreamEvent {
        response_id: Some("v1".to_string()),
        video: Some(VideoNote {
            progress: 100,
            video_url: "u".to_string(),
            thumbnail_url: String::new(),
        }),
        ..event()
    };
    assert!(state.on_event(&done));
    assert_eq!(state.response_id, "v1");
    state.show("https://x/v.mp4", "");
    assert_eq!(
        state.content,
        "<video id=\"video\" controls=\"\" preload=\"none\">\n  <source id=\"mp4\" src=\"https://x/v.mp4\" type=\"video/mp4\">\n</video>"
    );
    let empty = UpstreamEvent {
        video: Some(VideoNote {
            progress: 100,
            video_url: String::new(),
            thumbnail_url: String::new(),
        }),
        ..event()
    };
    assert!(!state.on_event(&empty));
    assert_eq!(state.response_id, "");
}

#[test]
fn image_stream_passes_one_of_two_when_one_is_asked_for() {
    let mut state = ImageStreamProcessor::with_draw(1, false, 7);
    assert_eq!(state.target_index, Some(1));
    assert!(state.on_partial(0, 10).is_none());
    let partial = state.on_partial(1, 10).unwrap();
    assert_eq!((partial.index, partial.progress), (0, 10));
    state.on_final("a".to_string());
    state.on_final("b".to_string());
    state.on_final("c".to_string());
    let done = state.completed();
    assert_eq!(done.len(), 1);
    assert_eq!((done[0].index, done[0].image.as_str()), (0, "b"));

    let chosen = ImageStreamProcessor::new(1, true);
    assert!(chosen.target_index == Some(0) || chosen.target_index == Some(1));
    assert!(ImageStreamProcessor::new(3, true).target_index.is_none());
}

#[test]
fn image_stream_passes_all_when_several_are_asked_for() {
    let mut state = ImageStreamProcessor::with_draw(2, true, 0);
    assert_eq!(state.target_index, None);
    let partial = state.on_partial(3, 55).unwrap();
    assert_eq!((partial.index, partial.progress), (3, 55));
    let note = UpstreamEvent {
        image: Some(ImageNote { index: 1, progress: 5 }),
        reply: Some(ModelReply { message: None, image_urls: vec!["u".to_string()], model_hash: None }),
        ..event()
    };
    assert!(matches!(state.step(&note), ImageStep::Partial(p) if p.index == 1 && p.progress == 5));
    let reply = UpstreamEvent {
        reply: Some(ModelReply { message: None, image_urls: vec!["u".to_string()], model_hash: None }),
        ..event()
    };
    assert!(matches!(state.step(&reply), ImageStep::Fetch(urls) if urls == vec!["u".to_string()]));
    assert!(matches!(state.step(&token_event("t")), ImageStep::Nothing));
    state.on_final("a".to_string());
    state.on_final("b".to_string());
    let done = state.completed();
    assert_eq!(done.len(), 2);
    assert_eq!((done[0].index, done[0].image.as_str()), (0, "a"));
    assert_eq!((done[1].index, done[1].image.as_str()), (1, "b"));
}

#[test]
fn data_head_is_taken_off() {
    assert_eq!(strip_data_head("data:image/png;base64,QUJD"), "QUJD");
    assert_eq!(strip_data_head("a,b,c"), "b,c");
    assert_eq!(strip_data_head("QUJD"), "QUJD");
    assert_eq!(strip_data_head(","), "");
}

#[test]
fn media_links_point_upstream_or_to_the_gateway() {
    let upstream = media_link("", "https://assets.grok.com/users/a/b.jpg?x=1", "image");
    assert_eq!(upstream.path, "/users/a/b.jpg");
    assert_eq!(upstream.link, "https://assets.grok.com/users/a/b.jpg");
    assert!(!upstream.fetch);
    let local = media_link("http://me:8000//", "users/a/v.mp4", "video");
    assert_eq!(local.path, "/users/a/v.mp4");
    assert_eq!(local.link, "http://me:8000/v1/files/video/users/a/v.mp4");
    assert!(local.fetch);
    let odd = media_link("", "http no url", "image");
    assert_eq!(odd.link, "https://assets.grok.com/http no url");
}

#[test]
fn input_forms_are_planned() {
    let none = InputForm::Missing;
    assert_eq!(plan_input(2, &none).unwrap(), InputPlan::Messages);
    let err = plan_input(0, &none).unwrap_err();
    assert_eq!((err.status, err.body.message.as_str()), (400, "input is required"));
    assert_eq!(err.body.code.as_deref(), Some("invalid_value"));
    assert_eq!(plan_input(0, &InputForm::Text("hi".to_string())).unwrap(), InputPlan::OneText);
    let err = plan_input(0, &InputForm::Text(" \n".to_string())).unwrap_err();
    assert_eq!(err.body.message, "input cannot be empty");
    let list = |len, all_text, all_roles| InputForm::List { len, all_text, all_roles };
    assert_eq!(plan_input(0, &list(0, true, true)).unwrap_err().body.message, "input cannot be empty");
    assert_eq!(plan_input(0, &list(2, true, false)).unwrap(), InputPlan::EachText);
    assert_eq!(plan_input(0, &list(2, false, true)).unwrap(), InputPlan::EachMessage);
    assert_eq!(plan_input(0, &list(2, false, false)).unwrap_err().body.message, "input is required");
    assert_eq!(plan_input(0, &InputForm::Message).unwrap(), InputPlan::OneMessage);
    assert_eq!(plan_input(0, &InputForm::Other).unwrap_err().body.message, "input is required");
}

#[test]
fn blocks_are_normalized() {
    assert!(matches!(normalize_block(&InputBlock::Text("t".to_string())), ChatBlock::Text(t) if t == "t"));
    assert!(matches!(normalize_block(&InputBlock::Text(String::new())), ChatBlock::Text(t) if t.is_empty()));
    assert!(matches!(normalize_block(&InputBlock::Image("u".to_string())), ChatBlock::ImageUrl(u) if u == "u"));
    assert!(matches!(normalize_block(&InputBlock::Image(String::new())), ChatBlock::Same));
    assert!(matches!(normalize_block(&InputBlock::Other), ChatBlock::Same));
}

#[test]
fn token_totals_are_summed_when_not_reported() {
    assert_eq!(total_tokens(3, 4, None), 7);
    assert_eq!(total_tokens(3, 4, Some(100)), 100);
    assert_eq!(total_tokens(i64::MAX, 1, None), i64::MAX);
    assert_eq!(total_tokens(i64::MIN, -1, None), i64::MIN);
}

#[test]
fn payloads_are_read_from_event_lines() {
    assert_eq!(data_payload("  data: {\"a\":1}  "), Some("{\"a\":1}".to_string()));
    assert_eq!(data_payload("data: data: x"), Some("x".to_string()));
    assert_eq!(data_payload("data: [DONE]"), None);
    assert_eq!(data_payload("event: x"), None);
    assert_eq!(data_payload("data:x"), None);
    assert_eq!(
        data_payloads("data: one\n\nevent: e\r\ndata: two \ndata: [DONE]\n\n"),
        vec!["one".to_string(), "two".to_string()]
    );
    assert!(data_payloads("").is_empty());
    assert_eq!(data_payloads("data: last"), vec!["last".to_string()]);
}

#[test]
fn asset_names_and_addresses_are_exact() {
    assert_eq!(mime_of(Some("image/png; charset=x")), "image/png");
    assert_eq!(mime_of(Some("video/mp4")), "video/mp4");
    assert_eq!(mime_of(None), "application/octet-stream");
    assert_eq!(data_address("image/png", "QUJD"), "data:image/png;base64,QUJD");
    assert_eq!(
        download_lock_name("image", "a"),
        "download_image_86f7e437faa5a7fce15d1ddcb9eaeaea377667b8"
    );
    assert_eq!(rooted("a/b"), "/a/b");
    assert_eq!(rooted("/a/b"), "/a/b");
    assert_eq!(trim_end_slashes("http://x//"), "http://x");
}

#[test]
fn pages_are_cut_from_a_list() {
    assert_eq!(page_range(1, 10, 25), (0, 10));
    assert_eq!(page_range(0, 10, 25), (0, 10));
    assert_eq!(page_range(3, 10, 25), (20, 25));
    assert_eq!(page_range(2, 5, 5), (5, 5));
    assert_eq!(page_range(7, 0, 0), (0, 0));
}

#[test]
fn a_walk_ends_when_a_page_comes_again() {
    let mut walk = PageWalk::new();
    assert!(walk.visit("first"));
    assert!(walk.visit("second"));
    assert!(!walk.visit("first"));
    assert_eq!(walk.seen, vec!["first".to_string(), "second".to_string()]);
}

#[test]
fn accounts_are_masked_by_eight_and_sixteen() {
    assert_eq!(mask_account("0123456789abcdefghijklmn"), "0123456789abcdefghijklmn");
    assert_eq!(mask_account("0123456789abcdefghijklmno"), "01234567...9abcdefghijklmno");
    assert_eq!(mask_account(""), "");
}

#[test]
fn base_processor_links_media() {
    let base = BaseProcessor::new_at("grok-3", "tok", 1_700_000_000, "http://me/");
    assert_eq!((base.model.as_str(), base.token.as_str(), base.created), ("grok-3", "tok", 1_700_000_000));
    let link = base.process_url("users/a.jpg", "image");
    assert_eq!(link.link, "http://me/v1/files/image/users/a.jpg");
    assert!(link.fetch);
    let now = BaseProcessor::new("grok-3", "tok", "");
    assert!(now.created > 1_500_000_000 && now.created < 100_000_000_000);
    assert!(!now.process_url("/x", "video").fetch);
    assert_eq!(seconds_of(1_999), 1);
    assert_eq!(seconds_of(-1), -1);
    assert_eq!(seconds_of(-1_000), -1);
    assert_eq!(seconds_of(-1_001), -2);
    assert_eq!(seconds_of(0), 0);
}

#[test]
fn image_collect_takes_the_images_of_every_answer() {
    let mut state = ImageCollectProcessor::new(true);
    let both = UpstreamEvent {
        image: Some(ImageNote { index: 0, progress: 5 }),
        reply: Some(ModelReply {
            message: None,
            image_urls: vec!["u1".to_string(), "u2".to_string()],
            model_hash: None,
        }),
        ..event()
    };
    assert_eq!(state.wanted(&both), vec!["u1".to_string(), "u2".to_string()]);
    assert!(state.wanted(&token_event("t")).is_empty());
    state.on_final("a".to_string());
    state.on_final("b".to_string());
    assert_eq!(state.images, vec!["a".to_string(), "b".to_string()]);
    assert!(state.return_base64);
    assert_eq!(
        VideoStreamProcessor::build_video_html("v", "t"),
        VideoCollectProcessor::build_video_html("v", "t")
    );
}

#[test]
fn video_requests_carry_the_flag_of_their_preset() {
    assert_eq!(VideoService::mode_flag("fun"), "--mode=extremely-crazy");
    assert_eq!(VideoService::mode_flag("normal"), "--mode=normal");
    assert_eq!(VideoService::mode_flag("spicy"), "--mode=extremely-spicy-or-crazy");
    assert_eq!(VideoService::mode_flag("custom"), "--mode=custom");
    assert_eq!(VideoService::mode_flag("Fun"), "--mode=custom");
    assert_eq!(VideoService::full_prompt("a cat", "normal"), "a cat --mode=normal");
    assert_eq!(VideoService::image_address("users/1/a.png"), "https://assets.grok.com/users/1/a.png");
    let attachments = vec![
        Attachment { kind: "file".to_string(), data: "f".to_string() },
        Attachment { kind: "image".to_string(), data: "i1".to_string() },
        Attachment { kind: "image".to_string(), data: "i2".to_string() },
    ];
    assert_eq!(VideoService::first_image(&attachments), Some("i1".to_string()));
    assert_eq!(VideoService::first_image(&attachments[..1].iter().map(|a| Attachment { kind: a.kind.clone(), data: a.data.clone() }).collect()), None);
    assert_eq!(VideoService::first_image(&Vec::new()), None);
}

#[test]
fn thoughts_are_asked_for_by_word() {
    assert_eq!(ChatService::think_of(Some("enabled")), Some(true));
    assert_eq!(ChatService::think_of(Some("disabled")), Some(false));
    assert_eq!(ChatService::think_of(Some("Enabled")), None);
    assert_eq!(ChatService::think_of(Some("")), None);
    assert_eq!(ChatService::think_of(None), None);
}

#[test]
fn files_are_put_in_the_order_of_their_times() {
    assert_eq!(sorted_order(&vec![30, 10, 20, 10], false), vec![1, 3, 2, 0]);
    assert_eq!(sorted_order(&vec![30, 10, 20, 10], true), vec![0, 2, 1, 3]);
    assert_eq!(sorted_order(&vec![5, 5, 5], true), vec![0, 1, 2]);
    assert_eq!(sorted_order(&vec![i64::MIN, i64::MAX, 0], false), vec![0, 2, 1]);
    assert!(sorted_order(&Vec::new(), false).is_empty());
}

#[test]
fn a_full_cache_loses_its_youngest_files_first() {
    let ages = vec![50, 10, 30, 20];
    let sizes = vec![100, 200, 300, 400];
    assert!(cache_overflow(&ages, &sizes, 1000, 800).is_empty());
    assert_eq!(cache_overflow(&ages, &sizes, 999, 800), vec![1]);
    assert_eq!(cache_overflow(&ages, &sizes, 999, 799), vec![1, 3]);
    assert_eq!(cache_overflow(&ages, &sizes, 999, 100), vec![1, 3, 2]);
    assert_eq!(cache_overflow(&ages, &sizes, 999, 99), vec![1, 3, 2, 0]);
    assert_eq!(cache_overflow(&ages, &sizes, 0, 0), vec![1, 3, 2, 0]);
    assert_eq!(cache_overflow(&ages, &sizes, 999, 5000), vec![1]);
    assert!(cache_overflow(&Vec::new(), &Vec::new(), 0, 0).is_empty());
    assert_eq!(cache_overflow(&vec![1, 2], &vec![u64::MAX, u64::MAX], u64::MAX, u64::MAX), vec![0]);
}
