use media_pipeline::asr::{
    normalize, report_segment, text_similarity, validate_asr, SegmentValidation, Similarity,
};
use media_pipeline::captions::{
    format_srt_time, generate_captions, script_fits, script_to_srt, srt_path_of, srt_timecode,
};
use media_pipeline::ffmpeg::{
    concat_audio, exit_result, list_path_of, loudness_args, loudness_text, render_slideshow,
};
use media_pipeline::ffprobe::{has_audio, has_video, probe, probe_args, MediaInfo, Probing, StreamInfo};
use media_pipeline::json::{parse_json, Json};
use media_pipeline::paths::{extension_of, file_name_of, join_path};
use media_pipeline::pipeline_types::{NarrationScript, PipelineJobRequest, Score, ScriptSegment};
use media_pipeline::planner::{
    build_user_prompt, create_plan, extract_json_block, parse_plan_response, plan_call, ChatReply,
    PlanRequest,
};
use media_pipeline::provider_router::ProviderRouter;
use media_pipeline::qa::{run_qa, DurationCheck, Inspection, Loudness, QaReport, QaRequest};
use media_pipeline::render::{
    media_format, plan_render, render_video, RenderRequest, RenderResult,
};
use media_pipeline::research::{do_research, next_query};
use media_pipeline::rlm_client::{Evidence, QueryRequest, QueryResponse, RlmClient, RlmReply};
use media_pipeline::tts::{
    generate_tts, next_call, tts_calls, CallOutcome, Saved, TtsApiRequest,
};
use media_pipeline::validator_core::require;

fn json(text: &str) -> Json {
    parse_json(text).unwrap()
}

fn to_value(v: &Json) -> serde_json::Value {
    match v {
        Json::Null => serde_json::Value::Null,
        Json::Bool(b) => serde_json::Value::Bool(*b),
        Json::Unsigned(n) => serde_json::Value::from(*n),
        Json::Negative(n) => serde_json::Value::from(*n),
        Json::Fraction(s) => serde_json::from_str(s).unwrap(),
        Json::Text(s) => serde_json::Value::String(s.clone()),
        Json::Array(items) => serde_json::Value::Array(items.iter().map(to_value).collect()),
        Json::Object(members) => serde_json::Value::Object(
            members.iter().map(|(k, v)| (k.clone(), to_value(v))).collect(),
        ),
    }
}

fn written(v: &Json) -> String {
    serde_json::to_string(&to_value(v)).unwrap()
}

// ---------------------------------------------------------------------------
// Planner
// ---------------------------------------------------------------------------

fn sample_plan_request() -> PlanRequest {
    PlanRequest {
        job_id: "test-001".into(),
        request: PipelineJobRequest {
            title: "Test Video".into(),
            idea: "Explaining Rust ownership".into(),
            audience: "developers".into(),
            target_duration_seconds: 120,
            tone: "informative".into(),
            must_include: vec!["borrowing".into()],
            must_avoid: vec![],
        },
    }
}

#[test]
fn parse_valid_json_response() {
    let json = r#"{
            "synopsis": "A video about Rust ownership",
            "segments": [
                {
                    "segment_number": 1,
                    "title": "Intro",
                    "duration_seconds": 30,
                    "description": "Introduction to ownership",
                    "visual_style": "code walkthrough"
                },
                {
                    "segment_number": 2,
                    "title": "Borrowing",
                    "duration_seconds": 90,
                    "description": "How borrowing works",
                    "visual_style": "diagram"
                }
            ],
            "research_queries": ["rust ownership model", "rust borrow checker"],
            "narration_tone": "friendly and technical"
        }"#;

    let plan = parse_plan_response(&sample_plan_request(), json).unwrap();
    assert_eq!(plan.segments.len(), 2);
    assert_eq!(plan.total_duration_seconds, 120);
    assert_eq!(plan.research_queries.len(), 2);
    assert_eq!(plan.synopsis, "A video about Rust ownership");
    assert_eq!(plan.narration_tone, "friendly and technical");
}

#[test]
fn parse_json_in_markdown_fences() {
    let content = r#"Here's the plan:

```json
{
    "synopsis": "Quick overview",
    "segments": [
        {
            "segment_number": 1,
            "title": "Main",
            "duration_seconds": 120,
            "description": "The whole video",
            "visual_style": "slides"
        }
    ],
    "research_queries": [],
    "narration_tone": "casual"
}
```

Let me know if you want changes."#;

    let plan = parse_plan_response(&sample_plan_request(), content).unwrap();
    assert_eq!(plan.segments.len(), 1);
    assert_eq!(plan.synopsis, "Quick overview");
}

#[test]
fn fallback_on_unparseable_response() {
    let content = "I couldn't understand your request, please try again.";
    let plan = parse_plan_response(&sample_plan_request(), content).unwrap();
    assert_eq!(plan.segments.len(), 1);
    assert_eq!(plan.total_duration_seconds, 120);
    assert!(plan.segments[0].description.contains("couldn't understand"));
    assert_eq!(plan.segments[0].visual_style, "default");
    assert_eq!(plan.narration_tone, "informative");
}

#[test]
fn fallback_synopsis_is_cut_at_200_characters() {
    let content = "ä".repeat(300);
    let plan = parse_plan_response(&sample_plan_request(), &content).unwrap();
    assert_eq!(plan.synopsis, "ä".repeat(200));
    assert_eq!(plan.segments[0].description, content);
}

#[test]
fn one_bad_segment_spoils_the_list() {
    let content = r#"{"segments": [
        {"segment_number": 1, "title": "t", "duration_seconds": 5, "description": "d", "visual_style": "v"},
        {"segment_number": -1, "title": "t", "duration_seconds": 5, "description": "d", "visual_style": "v"}
    ], "research_queries": ["a", 1]}"#;
    let plan = parse_plan_response(&sample_plan_request(), content).unwrap();
    assert!(plan.segments.is_empty());
    assert!(plan.research_queries.is_empty());
    assert_eq!(plan.total_duration_seconds, 0);
    assert_eq!(plan.synopsis, "");
    assert_eq!(plan.narration_tone, "informative");
}

#[test]
fn segments_may_be_arrays_and_have_more_members() {
    let content = r#"{"segments": [
        [7, "t", 5, "d", "v"],
        {"x": null, "segment_number": 2, "title": "u", "duration_seconds": 6, "description": "e", "visual_style": "w"}
    ]}"#;
    let plan = parse_plan_response(&sample_plan_request(), content).unwrap();
    assert_eq!(plan.segments.len(), 2);
    assert_eq!(plan.segments[0].segment_number, 7);
    assert_eq!(plan.segments[1].title, "u");
    assert_eq!(plan.total_duration_seconds, 11);
}

#[test]
fn durations_beyond_32_bits_are_no_plan() {
    let content = r#"{"segments": [
        [1, "t", 4294967295, "d", "v"], [2, "t", 1, "d", "v"]
    ]}"#;
    assert!(parse_plan_response(&sample_plan_request(), content).is_none());
}

#[test]
fn extract_json_from_fenced_block() {
    let input = "```json\n{\"key\": \"value\"}\n```";
    assert_eq!(extract_json_block(input), r#"{"key": "value"}"#);
}

#[test]
fn extract_json_plain() {
    let input = r#"  {"key": "value"}  "#;
    assert_eq!(extract_json_block(input), r#"{"key": "value"}"#);
}

#[test]
fn other_fences_are_opened_too() {
    assert_eq!(extract_json_block("x ```js\n{}\n``` y"), "{}");
    assert_eq!(extract_json_block("x ```{}``` y"), "{}");
    assert_eq!(extract_json_block("```json {}"), "```json {}");
    assert_eq!(extract_json_block("é ```json\n\"ü\"\n```"), "\"ü\"");
}

#[test]
fn build_prompt_includes_request_fields() {
    let req = sample_plan_request();
    let prompt = build_user_prompt(&req);
    assert!(prompt.contains("Test Video"));
    assert!(prompt.contains("Rust ownership"));
    assert!(prompt.contains("borrowing"));
}

#[test]
fn prompts_are_written_out_in_full() {
    let mut req = sample_plan_request();
    req.request.must_avoid = vec!["a".into(), "b".into()];
    assert_eq!(
        build_user_prompt(&req),
        r#"Create a project plan for this video:

Title: Test Video
Idea: Explaining Rust ownership
Audience: developers
Target Duration: 120s
Tone: informative
Must Include: borrowing
Must Avoid: a, b

Respond with a JSON object containing:
- "synopsis": brief overview (1-2 sentences)
- "segments": array of { "segment_number", "title", "duration_seconds", "description", "visual_style" }
- "research_queries": array of search queries to gather facts
- "narration_tone": guidance for the narrator"#
    );
}

#[test]
fn plan_calls_go_to_the_planning_model() {
    let router = ProviderRouter::from_toml(SAMPLE_TOML).unwrap();
    let call = plan_call(&router, "be brief", &sample_plan_request(), true).unwrap();
    assert_eq!(call.model, "gpt-4.1");
    assert_eq!(call.messages[0].role, "system");
    assert_eq!(call.messages[0].content, "be brief");
    assert_eq!(call.messages[1].role, "user");
    assert!(call.messages[1].content.contains("Test Video"));
    assert_eq!(plan_call(&router, "", &sample_plan_request(), false).unwrap_err(), 500);
}

#[test]
fn plan_replies_without_content_are_bad_gateways() {
    let req = sample_plan_request();
    assert_eq!(create_plan(&req, &ChatReply::Unreachable).unwrap_err(), 502);
    let refused = ChatReply::Response { status: 429, choices: Some(vec!["{}".into()]) };
    assert_eq!(create_plan(&req, &refused).unwrap_err(), 502);
    let garbled = ChatReply::Response { status: 200, choices: None };
    assert_eq!(create_plan(&req, &garbled).unwrap_err(), 502);
    let silent = ChatReply::Response { status: 200, choices: Some(vec![]) };
    let plan = create_plan(&req, &silent).unwrap().unwrap();
    assert_eq!(plan.synopsis, "");
    let good = ChatReply::Response { status: 200, choices: Some(vec!["{}".into(), "x".into()]) };
    assert!(create_plan(&req, &good).unwrap().unwrap().segments.is_empty());
}

// ---------------------------------------------------------------------------
// Routes
// ---------------------------------------------------------------------------

const SAMPLE_TOML: &str = r#"
[planning]
provider = "openai"
model = "gpt-4.1"

[tts]
provider = "openai"
model = "gpt-4o-mini-tts"

[asr]
provider = "openai"
model = "gpt-4o-transcribe"
"#;

#[test]
fn parse_routes_from_toml() {
    let router = ProviderRouter::from_toml(SAMPLE_TOML).unwrap();
    assert_eq!(router.routes.len(), 3);
}

#[test]
fn route_for_known_capability() {
    let router = ProviderRouter::from_toml(SAMPLE_TOML).unwrap();
    let route = router.route_for("planning").unwrap();
    assert_eq!(route.provider, "openai");
    assert_eq!(route.model, "gpt-4.1");
}

#[test]
fn route_for_unknown_returns_default() {
    let router = ProviderRouter::from_toml(SAMPLE_TOML).unwrap();
    let route = router.route_for("unknown-cap").unwrap();
    assert_eq!(route.provider, "openai");
    assert_eq!(route.model, "gpt-4.1-mini");
}

#[test]
fn route_for_strict_fails_on_unknown() {
    let router = ProviderRouter::from_toml(SAMPLE_TOML).unwrap();
    let result = router.route_for_strict("nonexistent");
    assert!(result.is_err());
    assert_eq!(
        result.unwrap_err(),
        "no route configured for capability 'nonexistent'"
    );
    assert_eq!(router.route_for_strict("asr").unwrap().model, "gpt-4o-transcribe");
}

#[test]
fn custom_default() {
    let router = ProviderRouter::from_toml(SAMPLE_TOML)
        .unwrap()
        .with_default("anthropic", "sonnet-4-6");
    let route = router.route_for("something").unwrap();
    assert_eq!(route.provider, "anthropic");
    assert_eq!(route.model, "sonnet-4-6");
    assert_eq!(router.route_for("tts").unwrap().model, "gpt-4o-mini-tts");
}

#[test]
fn capabilities_lists_all() {
    let router = ProviderRouter::from_toml(SAMPLE_TOML).unwrap();
    let caps = router.capabilities();
    assert_eq!(caps.len(), 3);
    assert!(caps.contains(&"planning"));
    assert!(caps.contains(&"tts"));
    assert!(caps.contains(&"asr"));
}

#[test]
fn routes_need_a_provider_and_a_model() {
    let e = "failed to parse models TOML";
    assert_eq!(ProviderRouter::from_toml("[a]\nprovider = \"x\"").unwrap_err(), e);
    assert_eq!(ProviderRouter::from_toml("[a]\nprovider = 1\nmodel = \"m\"").unwrap_err(), e);
    assert_eq!(ProviderRouter::from_toml("a = 1").unwrap_err(), e);
    assert_eq!(ProviderRouter::from_toml("[a").unwrap_err(), e);
    assert!(ProviderRouter::from_toml("").unwrap().routes.is_empty());
}

#[test]
fn routes_may_be_inline_or_arrays() {
    let router = ProviderRouter::from_toml(
        "a = { provider = \"p\", model = \"m\", note = 3 }\nb = [\"q\", \"n\"]",
    )
    .unwrap();
    assert_eq!(router.route_for("a").unwrap().model, "m");
    assert_eq!(router.route_for("b").unwrap().provider, "q");
}

#[test]
fn no_key_of_a_route_has_a_meaning_of_its_own() {
    for key in ["$__toml_private_datetime", "$serde_json::private::RawValue", "note"] {
        for value in ["\"x\"", "\"1979-05-27\"", "3", "1979-05-27"] {
            let text = format!("[a]\n\"{key}\" = {value}\nprovider = \"p\"\nmodel = \"m\"");
            let router = ProviderRouter::from_toml(&text).unwrap();
            assert_eq!(router.route_for("a").unwrap().model, "m");
        }
    }
    assert!(ProviderRouter::from_toml("a = 1979-05-27").is_err());
    assert!(ProviderRouter::from_toml("[a]\nprovider = 1979-05-27\nmodel = \"m\"").is_err());
}

// ---------------------------------------------------------------------------
// Research
// ---------------------------------------------------------------------------

#[test]
fn stub_fallback_when_unreachable() {
    let client = RlmClient::new("http://127.0.0.1:1".to_string());
    let resp = client.ask("What is Rust?", RlmReply::Unreachable).unwrap();
    assert!(resp.answer.contains("Stub"));
    assert_eq!(resp.answer, "Stub: no RLM service available to answer 'What is Rust?'");
    assert!(resp.evidence.is_empty());
    assert_eq!(client.base_url(), "http://127.0.0.1:1");
    assert_eq!(client.query_url(), "http://127.0.0.1:1/query");
}

#[test]
fn query_request_serializes() {
    let req = QueryRequest {
        question: "test".into(),
        context: Some("ctx".into()),
        max_results: Some(5),
    };
    let json = written(&req.body());
    assert!(json.contains("max_results"));
    assert_eq!(json, r#"{"context":"ctx","max_results":5,"question":"test"}"#);
}

#[test]
fn query_request_omits_none_fields() {
    let req = QueryRequest {
        question: "test".into(),
        context: None,
        max_results: None,
    };
    let json = written(&req.body());
    assert!(!json.contains("context"));
    assert!(!json.contains("max_results"));
}

fn response() -> QueryResponse {
    QueryResponse {
        answer: "It is safe.".into(),
        evidence: vec![Evidence {
            source: "book".into(),
            snippet: "ownership".into(),
            relevance_score: Score { bits: 0.5f32.to_bits() },
        }],
    }
}

#[test]
fn rlm_replies_are_judged_by_their_status() {
    let client = RlmClient::new("u".to_string());
    let error = RlmReply::Response { status: 500, body: Some(response()) };
    assert!(client.ask("q", error).unwrap().answer.starts_with("Stub"));
    let unread = RlmReply::Response { status: 200, body: None };
    assert_eq!(client.ask("q", unread).unwrap_err(), "failed to parse RLM response");
    let good = RlmReply::Response { status: 200, body: Some(response()) };
    assert_eq!(client.ask("q", good).unwrap().evidence[0].snippet, "ownership");
}

#[test]
fn research_with_stub_rlm() {
    let client = RlmClient::new("http://127.0.0.1:1".to_string());
    let queries = vec!["What is Rust?".to_string(), "Memory safety".to_string()];
    let answers =
        queries.iter().map(|q| client.ask(q, RlmReply::Unreachable)).collect::<Vec<_>>();
    let packets = do_research("test-1", &queries, &answers).unwrap();
    assert_eq!(packets.len(), 2);
    assert_eq!(packets[0].job_id, "test-1");
    assert!(packets[0].summary.contains("Stub"));
}

#[test]
fn evidence_becomes_facts() {
    let queries = vec!["q".to_string()];
    let packets = do_research("j", &queries, &vec![Ok(response())]).unwrap();
    assert_eq!(packets[0].query, "q");
    assert_eq!(packets[0].summary, "It is safe.");
    assert_eq!(packets[0].facts[0].claim, "ownership");
    assert_eq!(packets[0].facts[0].source, "book");
    assert_eq!(f32::from_bits(packets[0].facts[0].confidence.bits), 0.5);
}

#[test]
fn a_failed_query_is_a_bad_gateway() {
    let queries = vec!["a".to_string(), "b".to_string(), "c".to_string()];
    let answers = vec![Ok(response()), Err("x".to_string())];
    assert_eq!(next_query(&queries, &answers), None);
    assert_eq!(do_research("j", &queries, &answers).unwrap_err(), 502);
    assert_eq!(next_query(&queries, &vec![]), Some(0));
    assert_eq!(next_query(&queries, &vec![Ok(response())]), Some(1));
    assert_eq!(next_query(&queries[..1].to_vec(), &vec![Ok(response())]), None);
}

// ---------------------------------------------------------------------------
// Speech
// ---------------------------------------------------------------------------

fn sample_script() -> NarrationScript {
    NarrationScript {
        job_id: "test-1".into(),
        title: "Test".into(),
        total_duration_seconds: 35,
        segments: vec![
            ScriptSegment {
                segment_number: 1,
                title: "Intro".into(),
                narration_text: "Welcome to the show.".into(),
                estimated_duration_seconds: 5,
                visual_notes: "title card".into(),
            },
            ScriptSegment {
                segment_number: 2,
                title: "Main".into(),
                narration_text: "Let's talk about Rust.".into(),
                estimated_duration_seconds: 30,
                visual_notes: "code".into(),
            },
        ],
    }
}

#[test]
fn tts_api_request_serializes() {
    let req = TtsApiRequest {
        model: "gpt-4o-mini-tts".into(),
        input: "Hello world".into(),
        voice: "alloy".into(),
        response_format: "mp3".into(),
    };
    let json = written(&req.body());
    assert!(json.contains("gpt-4o-mini-tts"));
    assert!(json.contains("alloy"));
}

#[test]
fn each_segment_is_spoken_by_one_call() {
    let router = ProviderRouter::from_toml(SAMPLE_TOML).unwrap();
    let calls = tts_calls(&router, &sample_script(), "./data/tts", true).unwrap();
    assert_eq!(calls.len(), 2);
    assert_eq!(calls[1].file_path, "./data/tts/test-1_seg002.mp3");
    assert_eq!(calls[1].request.model, "gpt-4o-mini-tts");
    assert_eq!(calls[1].request.input, "Let's talk about Rust.");
    assert_eq!(calls[1].request.voice, "alloy");
    assert_eq!(calls[1].request.response_format, "mp3");
    assert_eq!(tts_calls(&router, &sample_script(), "", false).unwrap_err(), 500);
}

fn written_audio() -> CallOutcome {
    CallOutcome::Response { status: 200, saved: Saved::Written }
}

#[test]
fn spoken_segments_are_reported_with_their_files() {
    let outcomes = vec![written_audio(), written_audio()];
    let result = generate_tts(&sample_script(), "/out/", true, &outcomes).unwrap();
    assert_eq!(result.job_id, "test-1");
    assert_eq!(result.segment_files.len(), 2);
    assert_eq!(result.segment_files[1].segment_number, 2);
    assert_eq!(result.segment_files[1].file_path, "/out/test-1_seg002.mp3");
}

#[test]
fn the_first_failed_call_decides_the_answer() {
    let s = sample_script();
    let answer = |outcomes: Vec<CallOutcome>| {
        assert_eq!(next_call(&s, &outcomes), None);
        generate_tts(&s, "d", true, &outcomes).unwrap_err()
    };
    assert_eq!(answer(vec![CallOutcome::Unreachable]), 502);
    let refused = CallOutcome::Response { status: 401, saved: Saved::Unwritten };
    assert_eq!(answer(vec![written_audio(), refused]), 502);
    let unread = CallOutcome::Response { status: 200, saved: Saved::Unread };
    assert_eq!(answer(vec![unread]), 502);
    let unwritten = CallOutcome::Response { status: 200, saved: Saved::Unwritten };
    assert_eq!(answer(vec![written_audio(), unwritten]), 500);
    assert_eq!(generate_tts(&s, "d", false, &vec![]).unwrap_err(), 500);
}

#[test]
fn calls_are_made_in_order_until_one_fails() {
    let s = sample_script();
    assert_eq!(next_call(&s, &vec![]), Some(0));
    assert_eq!(next_call(&s, &vec![written_audio()]), Some(1));
    assert_eq!(next_call(&s, &vec![written_audio(), written_audio()]), None);
    assert_eq!(next_call(&s, &vec![CallOutcome::Unreachable]), None);
}

#[test]
fn paths_are_joined_and_taken_apart() {
    assert_eq!(join_path("./data", "a.mp3"), "./data/a.mp3");
    assert_eq!(join_path("/data/", "a.mp3"), "/data/a.mp3");
    assert_eq!(join_path("", "a.mp3"), "a.mp3");
    assert_eq!(join_path("/data", "/a.mp3"), "/a.mp3");
    assert_eq!(file_name_of("/x.y/a.mp3"), "a.mp3");
    assert_eq!(file_name_of("a.mp3"), "a.mp3");
    for name in ["a.tar.mp4", "a.", "a", ".mp4", "..", "ä.b", ".a.b"] {
        let expected = std::path::Path::new(name)
            .extension()
            .map(|e| e.to_string_lossy().into_owned());
        assert_eq!(extension_of(name), expected);
    }
    for (dir, path) in [("a", "b"), ("a/", "b"), ("", "b"), ("a", "/b"), ("/", "b"), ("a", "")] {
        let expected = std::path::Path::new(dir).join(path).to_string_lossy().into_owned();
        assert_eq!(join_path(dir, path), expected);
    }
}

// ---------------------------------------------------------------------------
// Validation
// ---------------------------------------------------------------------------

fn score(a: &str, b: &str) -> f64 {
    let s = text_similarity(a, b);
    if s.all == 0 {
        1.0
    } else {
        s.shared as f64 / s.all as f64
    }
}

#[test]
fn identical_texts_score_one() {
    assert!((score("hello world", "hello world") - 1.0).abs() < f64::EPSILON);
}

#[test]
fn completely_different_texts_score_zero() {
    assert!((score("hello world", "foo bar")).abs() < f64::EPSILON);
}

#[test]
fn partial_overlap_scores_between() {
    let score = score("the quick brown fox", "the slow brown dog");
    assert!(score > 0.0 && score < 1.0);
}

#[test]
fn empty_texts_score_one() {
    assert!((score("", "") - 1.0).abs() < f64::EPSILON);
}

#[test]
fn similarity_counts_words_without_punctuation() {
    assert_eq!(
        text_similarity("Hello, world! (Hello)", "world Hello again"),
        Similarity { shared: 2, all: 3 }
    );
    assert_eq!(text_similarity("", "word"), Similarity { shared: 0, all: 1 });
    assert_eq!(text_similarity("-- !!", "?"), Similarity { shared: 1, all: 1 });
    assert_eq!(normalize("\u{ab}d'été!"), "d'été");
    assert_eq!(normalize("x"), "x");
}

#[test]
fn the_threshold_is_seventeen_of_twenty() {
    assert!(Similarity { shared: 17, all: 20 }.is_sufficient());
    assert!(!Similarity { shared: 16, all: 19 }.is_sufficient());
    assert!(Similarity { shared: 0, all: 0 }.is_sufficient());
    for all in 1usize..200 {
        for shared in 0..=all {
            let by_quotient = shared as f64 / all as f64 >= 0.85;
            assert_eq!(Similarity { shared, all }.is_sufficient(), by_quotient);
        }
    }
}

#[test]
fn validation_issue_from_require() {
    let issues = require(false, "TEST", "test message");
    assert_eq!(issues.len(), 1);
    assert_eq!(issues[0].code, "TEST");

    let no_issues = require(true, "TEST", "test message");
    assert!(no_issues.is_empty());
}

#[test]
fn transcripts_are_reported_with_their_issues() {
    let segments = vec![segment(1, "a b"), segment(2, "a b")];
    let good = report_segment(&segments[0], "a b".into(), "1.00");
    assert!(good.issues.is_empty());
    let bad = report_segment(&segments[1], "".into(), "0.00");
    assert_eq!(bad.issues.len(), 2);
    assert_eq!(bad.issues[0].code, "ASR_MISMATCH");
    assert_eq!(bad.issues[0].message, "transcript similarity 0.00 below threshold 0.85");
    assert_eq!(bad.issues[1].code, "ASR_EMPTY");
    assert_eq!(bad.issues[1].message, "transcription returned empty text");
}

fn segment(segment_number: u32, expected_text: &str) -> SegmentValidation {
    SegmentValidation {
        segment_number,
        audio_path: format!("/a{segment_number}.mp3"),
        expected_text: expected_text.into(),
    }
}

#[test]
fn each_transcript_is_compared_with_its_own_segment() {
    let segments = vec![segment(7, "one two"), segment(3, "three four")];
    let texts = vec!["1.00".to_string(), "0.00".to_string()];
    let transcripts = vec![Some("Two, one!".to_string()), None];
    let report = validate_asr("j", true, &segments, transcripts, &texts).unwrap();
    assert_eq!(report.job_id, "j");
    assert!(!report.passed);
    assert_eq!(report.segments.len(), 2);
    assert_eq!(report.segments[0].segment_number, 7);
    assert_eq!(report.segments[0].transcript, "Two, one!");
    assert_eq!(report.segments[0].similarity, Similarity { shared: 1, all: 3 });
    assert_eq!(report.segments[0].issues[0].code, "ASR_MISMATCH");
    assert_eq!(report.segments[1].segment_number, 3);
    assert_eq!(report.segments[1].transcript, "");
    assert_eq!(report.segments[1].issues.len(), 2);

    let texts = vec!["1.00".to_string(), "1.00".to_string()];
    let transcripts = vec![Some("one two".to_string()), Some("three four".to_string())];
    let report = validate_asr("j", true, &segments, transcripts, &texts).unwrap();
    assert!(report.passed);
    let swapped = vec![Some("three four".to_string()), Some("one two".to_string())];
    assert!(!validate_asr("j", true, &segments, swapped, &texts).unwrap().passed);
    assert!(validate_asr("j", true, &vec![], vec![], &vec![]).unwrap().passed);
    assert_eq!(validate_asr("j", false, &segments, vec![], &vec![]).unwrap_err(), 500);
}

// ---------------------------------------------------------------------------
// Captions
// ---------------------------------------------------------------------------

#[test]
fn srt_format() {
    let srt = script_to_srt(&sample_script());
    assert!(srt.contains("1\n00:00:00,000 --> 00:00:05,000"));
    assert!(srt.contains("2\n00:00:05,000 --> 00:00:35,000"));
    assert!(srt.contains("Welcome to the show."));
}

#[test]
fn srt_files_are_written_out_in_full() {
    assert_eq!(
        script_to_srt(&sample_script()),
        "1\n00:00:00,000 --> 00:00:05,000\nWelcome to the show.\n\n\
         2\n00:00:05,000 --> 00:00:35,000\nLet's talk about Rust.\n\n"
    );
}

#[test]
fn format_time_zero() {
    assert_eq!(format_srt_time(0), "00:00:00,000");
}

#[test]
fn format_time_large() {
    assert_eq!(format_srt_time(3661), "01:01:01,000");
}

#[test]
fn hours_have_more_digits_where_needed() {
    assert_eq!(format_srt_time(360_000), "100:00:00,000");
    assert_eq!(srt_timecode(359_999), "99:59:59,000");
}

#[test]
fn scripts_beyond_32_bits_do_not_fit() {
    let mut script = sample_script();
    assert!(script_fits(&script));
    script.segments[0].estimated_duration_seconds = u32::MAX - 30;
    assert!(script_fits(&script));
    script.segments[0].estimated_duration_seconds = u32::MAX - 29;
    assert!(!script_fits(&script));
}

#[test]
fn captions_that_cannot_be_written_are_an_error() {
    assert_eq!(srt_path_of("/out", "j"), "/out/j.srt");
    let ok = generate_captions(&sample_script(), "/out", true).unwrap();
    assert_eq!(ok.cue_count, 2);
    assert_eq!(ok.srt_path, "/out/test-1.srt");
    assert_eq!(generate_captions(&sample_script(), "x", false).unwrap_err(), 500);
}

// ---------------------------------------------------------------------------
// Media
// ---------------------------------------------------------------------------

#[test]
fn concat_rejects_empty_input() {
    let result = concat_audio(&vec![], "/tmp/out.mp3");
    assert!(result.is_err());
    assert_eq!(result.unwrap_err(), "no input files provided");
}

#[test]
fn slideshow_rejects_empty_images() {
    let result = render_slideshow(&vec![], "/tmp/audio.mp3", "/tmp/out.mp4", 30);
    assert!(result.is_err());
    assert_eq!(result.unwrap_err(), "no images provided");
}

#[test]
fn audio_is_joined_from_a_list() {
    let job = concat_audio(&vec!["a.mp3".into(), "b.mp3".into()], "d/o.mp3").unwrap();
    assert_eq!(job.list_path, "d/o.concat.txt");
    assert_eq!(job.list, "file 'a.mp3'\nfile 'b.mp3'\n");
    assert_eq!(
        job.args,
        vec!["-y", "-f", "concat", "-safe", "0", "-i", "d/o.concat.txt", "-c", "copy", "d/o.mp3"]
    );
}

#[test]
fn slides_are_shown_for_five_seconds() {
    let job = render_slideshow(&vec!["a.png".into()], "a.mp3", "o.mp4", 30).unwrap();
    assert_eq!(job.list_path, "o.images.txt");
    assert_eq!(job.list, "file 'a.png'\nduration 5\n");
    assert_eq!(job.args[6], "o.images.txt");
    assert_eq!(job.args[8], "a.mp3");
    assert_eq!(job.args[14], "30");
    assert_eq!(job.args[18], "o.mp4");
}

#[test]
fn lists_stand_beside_their_output() {
    let paths = [
        "/o/j.mp4", "j.mp4", "j", ".mp4", "/o/.mp4", "a.b/c", "a.b.c", "/", "", ".", "..", "a/..",
        "a/.", "a.x/.", "a.x/", "a.xyz//./", "./.", "/.", "ä.ö", "a.", "...", "a/...",
    ];
    for path in paths {
        for new in ["concat.txt", "x", ""] {
            let expected =
                std::path::Path::new(path).with_extension(new).to_string_lossy().into_owned();
            assert_eq!(list_path_of(path, new), expected, "{path} {new}");
        }
    }
}

#[test]
fn exit_codes_are_told() {
    assert_eq!(exit_result("concat", true, Some(0)), Ok(()));
    assert_eq!(
        exit_result("concat", false, Some(-1)).unwrap_err(),
        "ffmpeg concat failed with exit code Some(-1)"
    );
    assert_eq!(
        exit_result("slideshow render", false, None).unwrap_err(),
        "ffmpeg slideshow render failed with exit code None"
    );
}

#[test]
fn loudness_is_found_in_what_ffmpeg_prints() {
    let printed = "[Parsed]\n{\n\t\"input_i\" : \"-23.10\",\n\t\"input_tp\" : \"-5.0\"\n}";
    assert_eq!(loudness_text(printed), Some("-23.10"));
    assert_eq!(loudness_text("\"input_i\" -23"), None);
    assert_eq!(loudness_text("no json"), None);
    assert_eq!(loudness_text("\"input_i\": \"-2"), None);
    assert_eq!(loudness_args("f.mp3")[1], "f.mp3");
}

#[test]
fn probe_missing_file_errors() {
    let result = probe("/nonexistent/file.mp4", &Probing::Missing);
    assert!(result.is_err());
    assert_eq!(result.unwrap_err(), "file not found: /nonexistent/file.mp4");
}

#[test]
fn failed_probes_say_why() {
    assert_eq!(probe("f", &Probing::NotRun).unwrap_err(), "failed to run ffprobe on f");
    assert_eq!(probe("f", &Probing::Failed("bad".into())).unwrap_err(), "ffprobe failed: bad");
    assert_eq!(
        probe("f", &Probing::Printed(b"{".to_vec())).unwrap_err(),
        "failed to parse ffprobe JSON output"
    );
    assert_eq!(probe_args().len(), 6);
}

#[test]
fn probes_are_read() {
    let printed = br#"{
        "format": {"duration": "10.500000", "format_name": "mov,mp4"},
        "streams": [
            {"index": 0, "codec_type": "video", "codec_name": "h264", "width": 1920, "height": 1080, "extra": {}},
            {"index": 1, "codec_type": "audio", "codec_name": "aac", "sample_rate": "44100", "channels": 2, "width": null}
        ]
    }"#;
    let info = probe("f", &Probing::Printed(printed.to_vec())).unwrap();
    assert_eq!(info.duration.as_deref(), Some("10.500000"));
    assert_eq!(info.format_name, "mov,mp4");
    assert_eq!(info.streams.len(), 2);
    assert_eq!(info.streams[0].width, Some(1920));
    assert_eq!(info.streams[1].sample_rate.as_deref(), Some("44100"));
    assert_eq!(info.streams[1].width, None);
    assert!(has_audio(&info));
    assert!(has_video(&info));
}

#[test]
fn a_stream_that_cannot_be_read_spoils_the_list() {
    let printed = br#"{"streams": [{"index": 0, "codec_type": "video"}]}"#;
    let info = probe("f", &Probing::Printed(printed.to_vec())).unwrap();
    assert!(info.streams.is_empty());
    assert_eq!(info.format_name, "unknown");
    assert!(info.duration.is_none());
    assert!(!has_audio(&info));
    let printed = br#"{"streams": [[0, "audio", "aac"]]}"#;
    let info = probe("f", &Probing::Printed(printed.to_vec())).unwrap();
    assert!(has_audio(&info) && !has_video(&info));
}

#[test]
fn media_info_serializes() {
    let info = MediaInfo {
        duration: Some("10.5".into()),
        format_name: "mp4".into(),
        streams: vec![StreamInfo {
            index: 0,
            codec_type: "video".into(),
            codec_name: "h264".into(),
            width: Some(1920),
            height: Some(1080),
            sample_rate: None,
            channels: None,
        }],
    };
    let json = written(&info.body(Json::Fraction("10.5".into())));
    assert!(json.contains("1920"));
    assert!(json.contains("h264"));
    assert!(json.contains("\"duration_seconds\":10.5"));
    assert!(json.contains("\"channels\":null"));
}

// ---------------------------------------------------------------------------
// QA
// ---------------------------------------------------------------------------

#[test]
fn qa_report_serializes() {
    let report = QaReport {
        job_id: "test-1".into(),
        passed: true,
        issues: vec![],
        media_info: None,
    };
    let json = written(&report.body());
    assert!(json.contains("\"passed\":true"));
}

#[test]
fn duration_validation() {
    // Within tolerance
    let ok = require((100.0_f64 - 120.0).abs() <= 120.0 * 0.2, "DURATION", "msg");
    assert!(ok.is_empty());

    // Outside tolerance
    let fail = require((50.0_f64 - 120.0).abs() <= 120.0 * 0.2, "DURATION", "msg");
    assert_eq!(fail.len(), 1);
}

fn qa_request() -> QaRequest {
    QaRequest {
        job_id: "j".into(),
        output_path: "/v.mp4".into(),
        expected_duration_seconds: 30,
    }
}

fn media(printed: &[u8]) -> MediaInfo {
    probe("f", &Probing::Printed(printed.to_vec())).unwrap()
}

fn duration_check(within: bool) -> DurationCheck {
    DurationCheck {
        within,
        actual: "12.0".into(),
        expected: "30".into(),
        tolerance: "6".into(),
        number: Json::Fraction("12.0".into()),
    }
}

#[test]
fn missing_and_unreadable_files_do_not_pass() {
    let report = run_qa(&qa_request(), &Inspection::Missing);
    assert!(!report.passed);
    assert_eq!(report.issues[0].code, "FILE_MISSING");
    assert_eq!(report.issues[0].message, "output file not found: /v.mp4");
    assert!(report.media_info.is_none());
    let report = run_qa(&qa_request(), &Inspection::Unreadable("eof".into()));
    assert_eq!(report.issues[0].code, "PROBE_FAILED");
    assert_eq!(report.issues[0].message, "ffprobe failed: eof");
}

#[test]
fn every_failed_check_is_reported_in_order() {
    let report = run_qa(
        &qa_request(),
        &Inspection::Measured {
            info: media(b"{}"),
            duration: duration_check(false),
            loudness: Some(Loudness { within: false, text: "-40.0".into() }),
        },
    );
    let codes: Vec<&str> = report.issues.iter().map(|i| i.code.as_str()).collect();
    assert_eq!(
        codes,
        vec!["DURATION_MISMATCH", "NO_STREAMS", "NO_AUDIO", "LOUDNESS_OUT_OF_RANGE"]
    );
    assert_eq!(report.issues[0].message, "duration 12.0s outside expected 30s +/- 6s");
    assert_eq!(report.issues[1].message, "file has no media streams");
    assert_eq!(report.issues[2].message, "file has no audio stream");
    assert_eq!(
        report.issues[3].message,
        "integrated loudness -40.0 LUFS outside acceptable range (-30 to -5)"
    );
    assert!(!report.passed);
}

#[test]
fn good_files_pass_with_or_without_loudness() {
    let printed = br#"{"streams": [{"index": 0, "codec_type": "audio", "codec_name": "aac"}]}"#;
    for loudness in [None, Some(Loudness { within: true, text: "-16.0".into() })] {
        let report = run_qa(
            &qa_request(),
            &Inspection::Measured {
                info: media(printed),
                duration: duration_check(true),
                loudness,
            },
        );
        assert!(report.passed);
        assert!(report.issues.is_empty());
        let info = report.media_info.unwrap();
        assert_eq!(info.array_at("streams").unwrap().len(), 1);
    }
}

// ---------------------------------------------------------------------------
// Render
// ---------------------------------------------------------------------------

#[test]
fn render_result_serializes() {
    let result = RenderResult {
        job_id: "test-1".into(),
        output_path: "/tmp/test-1.mp4".into(),
        format: "mp4".into(),
    };
    let json = written(&result.body());
    assert!(json.contains("mp4"));
}

#[test]
fn renders_with_images_are_videos() {
    let req = RenderRequest {
        job_id: "j".into(),
        audio_files: vec!["a".into()],
        image_files: vec!["i".into()],
    };
    let plan = plan_render(&req, "/o");
    assert_eq!(plan.audio_path, "/o/j_audio.mp3");
    assert!(plan.join_audio);
    assert_eq!(plan.video_path.as_deref(), Some("/o/j.mp4"));
    assert_eq!(plan.fps, 30);
    let r = render_video(&req, "/o", true, true).unwrap();
    assert_eq!(r.output_path, "/o/j.mp4");
    assert_eq!(r.format, "mp4");
    assert_eq!(render_video(&req, "/o", false, true).unwrap_err(), 500);
    assert_eq!(render_video(&req, "/o", true, false).unwrap_err(), 500);
}

#[test]
fn renders_without_images_are_audio() {
    let req = RenderRequest { job_id: "j".into(), audio_files: vec![], image_files: vec![] };
    let plan = plan_render(&req, "o");
    assert!(!plan.join_audio);
    assert!(plan.video_path.is_none());
    let r = render_video(&req, "o", false, false).unwrap();
    assert_eq!(r.output_path, "o/j_audio.mp3");
    assert_eq!(r.format, "mp3");
    assert_eq!(media_format("/a.mp4/b"), "mp3");
    assert_eq!(media_format("/a/.mp4"), "mp3");
    assert_eq!(media_format("/a/b.mp4"), "mp4");
}

#[test]
fn numbers_keep_their_kind_in_json() {
    let v = json(r#"{"a": 1, "b": -2, "c": 0.5, "d": [true, null], "e": "x", "a": 3}"#);
    assert_eq!(v.u64_at("a", 0), 3);
    assert!(matches!(v.get("b"), Some(Json::Negative(-2))));
    assert!(matches!(v.get("c"), Some(Json::Fraction(s)) if s == "0.5"));
    assert!(parse_json("{").is_none());
    assert_eq!(written(&v), r#"{"a":3,"b":-2,"c":0.5,"d":[true,null],"e":"x"}"#);
}
