use media_pipeline::demo::{
    Demo, DemoAction, DemoEvent, DemoPhase, DetailReply, Submission,
};
use media_pipeline::demo_runner::{
    demo_job, mock_port, progress_label, read_created, read_detail, summarize_output, time_of,
};
use media_pipeline::dispatch::HttpStatus;
use media_pipeline::json::{parse_json, Json};
use media_pipeline::mock_render::{
    assemble, audio_candidates, caption_file, clip_args, clips, probed_duration, qa, render, render_content_segment, render_placeholder,
    render_title_card, Assembly, Measured,
};
use media_pipeline::mock_services::{
    captions, captions_file, captions_fit, format_srt_time, plan, research, script, silence_args,
    silent_files, tts, validate,
};
use media_pipeline::operator_cli::{
    api_error, can_list, can_truncate, delete_job, get_logs, get_status, job_error, list_jobs,
    retry_job, show_detail, show_health, show_output, show_outputs, submission_body, submit_job,
    truncate,
};
use media_pipeline::pipeline_types::{JobStatus, PipelineJob, PipelineJobRequest, Stage, Timestamp};
use media_pipeline::stage_request::build_stage_request;

fn json(text: &str) -> Json {
    parse_json(text).unwrap()
}

fn value(text: &str) -> serde_json::Value {
    serde_json::from_str(text).unwrap()
}

// ---------------------------------------------------------------------------
// Mock services
// ---------------------------------------------------------------------------

#[test]
fn plan_produces_segments_and_queries() {
    let body = json(
        r#"{"job_id": "test-1", "title": "Rust Basics", "idea": "Introduction to Rust",
            "audience": "beginners", "target_duration_seconds": 30, "tone": "friendly",
            "must_include": [], "must_avoid": []}"#,
    );
    let plan = plan(&body);
    assert_eq!(plan.array_at("segments").unwrap().len(), 2);
    assert_eq!(plan.array_at("research_queries").unwrap().len(), 2);

    let total: u64 = plan
        .array_at("segments")
        .unwrap()
        .iter()
        .map(|s| s.u64_at("duration_seconds", 0))
        .sum();
    assert_eq!(total, 30);
    assert_eq!(plan.array_at("segments").unwrap()[0].u64_at("duration_seconds", 0), 12);
    assert_eq!(plan.text_at("synopsis", ""), "A short video about: Introduction to Rust");
}

#[test]
fn short_videos_are_all_introduction() {
    let plan = plan(&json(r#"{"target_duration_seconds": 5}"#));
    let segments = plan.array_at("segments").unwrap();
    assert_eq!(segments[0].u64_at("duration_seconds", 9), 5);
    assert_eq!(segments[1].u64_at("duration_seconds", 9), 0);
    assert_eq!(plan.text_at("job_id", ""), "demo");
}

#[test]
fn full_chain_data_flows_correctly() {
    let plan_req = json(
        r#"{"job_id": "chain-1", "title": "Test", "idea": "Demo idea", "audience": "devs",
            "target_duration_seconds": 20, "tone": "casual", "must_include": [], "must_avoid": []}"#,
    );
    let plan = plan(&plan_req);

    let queries = plan.get("research_queries").unwrap().copy();
    let research_req = Json::object().with("job_id", Json::text("chain-1")).with("queries", queries);
    let research = research(&research_req);

    let script_req = Json::object().with("plan", plan).with("research", research);
    let script = script(&script_req);
    assert_eq!(script.array_at("segments").unwrap().len(), 2);
    assert_eq!(
        script.array_at("segments").unwrap()[0].text_at("narration_text", ""),
        "Welcome to Test. Today we explore Introduce the topic: Demo idea. \
         Test overview is an important topic in modern technology. Additionally, \
         Demo idea key facts is an important topic in modern technology."
    );

    let tts = tts(&script);
    assert_eq!(tts.array_at("segment_files").unwrap().len(), 2);
    assert_eq!(
        tts.array_at("segment_files").unwrap()[1].text_at("file_path", ""),
        "./data/demo/tts/chain-1/seg002.wav"
    );

    let job = PipelineJob {
        job_id: "chain-1".into(),
        submitted_at: Timestamp { seconds: 0, nanos: 0 },
        status: JobStatus::Running,
        current_stage: Stage::AsrValidation,
        request: PipelineJobRequest {
            title: "Test".into(),
            idea: "Demo idea".into(),
            audience: "devs".into(),
            target_duration_seconds: 20,
            tone: "casual".into(),
            must_include: vec![],
            must_avoid: vec![],
        },
    };
    let prior = vec![("Tts".to_string(), tts.copy()), ("Script".to_string(), script.copy())];
    let asr = validate(&build_stage_request("AsrValidation", &job, &prior).unwrap());
    assert!(asr.bool_at("passed", false));
    let segments = asr.array_at("segments").unwrap();
    assert!(segments[0].text_at("transcript", "").starts_with("Welcome to Test."));

    let caps = captions(&script);
    assert_eq!(caps.u64_at("cue_count", 0), 2);

    let render_req = build_stage_request("RenderFinal", &job, &prior).unwrap();
    assert_eq!(audio_candidates(&render_req).len(), 2);
    let render = render(&render_req);
    assert!(render.text_at("output_path", "").ends_with(".mp4"));

    let qa_req = Json::object()
        .with("job_id", Json::text("chain-1"))
        .with("output_path", Json::text(render.text_at("output_path", "")))
        .with("expected_duration_seconds", Json::Unsigned(20));
    let qa_result = qa(&qa_req, &None, Json::Fraction("20.0".into()));
    assert!(qa_result.bool_at("passed", false));
}

#[test]
fn later_segments_dive_deeper() {
    let body = json(
        r#"{"plan": {"segments": [{"segment_number": 2, "title": "Core", "description": "deep"}]}}"#,
    );
    let script = script(&body);
    let seg = &script.array_at("segments").unwrap()[0];
    assert_eq!(
        seg.text_at("narration_text", ""),
        "Now let's dive deeper into Core. deep. This is what makes the topic so compelling."
    );
    assert_eq!(seg.text_at("visual_notes", ""), "Show default visuals");
    assert_eq!(seg.u64_at("estimated_duration_seconds", 0), 15);
}

#[test]
fn scripts_without_a_plan_have_one_segment() {
    let script = script(&json("{}"));
    let segments = script.array_at("segments").unwrap();
    assert_eq!(segments.len(), 1);
    assert_eq!(segments[0].text_at("narration_text", ""), "Welcome to Demo Video. ");
    assert_eq!(script.u64_at("total_duration_seconds", 0), 30);
}

#[test]
fn speech_is_silence_of_the_right_length() {
    let body = json(
        r#"{"job_id": "j", "segments": [{"segment_number": 12, "estimated_duration_seconds": 7}, {}]}"#,
    );
    let files = silent_files(&body);
    assert_eq!(files[0].path, "./data/demo/tts/j/seg012.wav");
    assert_eq!(files[0].seconds, 7);
    assert_eq!(files[1].path, "./data/demo/tts/j/seg001.wav");
    assert_eq!(files[1].seconds, 10);
    let args = silence_args(&files[0]);
    assert_eq!(args[6], "7");
    assert_eq!(args[9], "./data/demo/tts/j/seg012.wav");
}

#[test]
fn mock_captions_follow_the_narration() {
    let body = json(
        r#"{"segments": [{"narration_text": "a", "estimated_duration_seconds": 3600}, {}]}"#,
    );
    assert!(captions_fit(&body));
    assert_eq!(
        captions_file(&body),
        "1\n00:00:00,000 --> 01:00:00,000\na\n\n2\n01:00:00,000 --> 01:00:10,000\n...\n\n"
    );
    assert_eq!(captions(&body).text_at("srt_path", ""), "./data/demo/captions/demo/captions.srt");
    assert_eq!(format_srt_time(59), "00:00:59,000");
    let endless = json(
        r#"{"segments": [{"estimated_duration_seconds": 18446744073709551615}, {}]}"#,
    );
    assert!(!captions_fit(&endless));
}

#[test]
fn the_first_clip_is_the_title_card() {
    let body = json(r#"{"job_id": "j", "title": "T", "segments": [{"title": "One"}]}"#);
    let clips = clips(&body, &vec!["a.wav".into(), "b.wav".into()]);
    assert!(clips[0].intro);
    assert_eq!(clips[0].title, "One");
    assert_eq!(clips[0].path, "./data/demo/renders/j/clip_000.mp4");
    assert!(!clips[1].intro);
    assert_eq!(clips[1].title, "Segment");
    assert_eq!(clips[1].audio, "b.wav");
}

#[test]
fn clips_are_rendered_by_their_kind() {
    let body = json(r#"{"job_id": "j", "srt_path": "c.srt"}"#);
    let clips = clips(&body, &vec!["a.wav".into(), "b.wav".into()]);
    assert_eq!(caption_file(&body), "c.srt");
    let full = Some("/c.srt".to_string());
    assert_eq!(
        clip_args(&body, &clips[0], &full),
        render_title_card("a.wav", "Demo Video", "Segment", &clips[0].path)
    );
    assert_eq!(
        clip_args(&body, &clips[1], &full),
        render_content_segment("b.wav", "c.srt", &full, &clips[1].path)
    );
    assert_eq!(clip_args(&json("{}"), &clips[1], &full).len(), 19);
}

#[test]
fn quotes_and_colons_are_escaped_for_ffmpeg() {
    let args = render_title_card("a.wav", "It's", "x", "o.mp4");
    assert_eq!(args.len(), 21);
    assert_eq!(
        args[4],
        "color=c=0x0f0f23:s=1920x1080:r=30,drawtext=text='It'\\''s':fontsize=72:fontcolor=white:\
         x=(w-text_w)/2:y=(h-text_h)/2-60,drawtext=text='x':fontsize=36:fontcolor=0xaaaaaa:\
         x=(w-text_w)/2:y=(h/2)+40[v]"
    );
    let args = render_content_segment("a.wav", "c.srt", &Some("/x:y/c.srt".into()), "o.mp4");
    assert_eq!(args[8], "-vf");
    assert_eq!(
        args[9],
        "subtitles='/x\\:y/c.srt':force_style='FontSize=32,FontName=Arial,\
         PrimaryColour=&H00FFFFFF,OutlineColour=&H00000000,Outline=2,MarginV=50'"
    );
    assert_eq!(args.len(), 21);
    assert_eq!(render_content_segment("a", "", &Some("/c".into()), "o").len(), 19);
    assert_eq!(render_content_segment("a", "c", &None, "o").len(), 19);
    assert_eq!(render_placeholder("o.mp4").last().unwrap(), "o.mp4");
}

#[test]
fn clips_are_assembled_by_their_number() {
    let body = json(r#"{"job_id": "j"}"#);
    assert!(matches!(assemble(&body, &vec![]), Assembly::Placeholder(args) if args.len() == 19));
    match assemble(&body, &vec!["c0".into()]) {
        Assembly::Rename { from, to } => {
            assert_eq!(from, "c0");
            assert_eq!(to, "./data/demo/renders/j/final.mp4");
        }
        other => panic!("{other:?}"),
    }
    match assemble(&body, &vec!["c0".into(), "c1".into()]) {
        Assembly::Concat { list_path, args } => {
            assert_eq!(list_path, "./data/demo/renders/j/concat.txt");
            assert_eq!(args[6], list_path);
            assert_eq!(args[9], "./data/demo/renders/j/final.mp4");
        }
        other => panic!("{other:?}"),
    }
}

#[test]
fn durations_are_found_in_a_probe() {
    let probe = json(r#"{"format": {"duration": "12.34"}}"#);
    assert_eq!(probed_duration(&probe), Some("12.34"));
    assert_eq!(probed_duration(&json(r#"{"format": {"duration": 12}}"#)), None);
    assert_eq!(probed_duration(&json(r#"{"duration": "12"}"#)), None);
}

#[test]
fn measured_videos_are_reported_as_they_are() {
    let body = json(r#"{"expected_duration_seconds": 20}"#);
    let measured = Measured {
        probe: json(r#"{"format": {"format_name": "mov"}, "streams": [1]}"#),
        duration: Json::Fraction("12.34".into()),
        duration_text: "12.3".into(),
        off: true,
    };
    let report = qa(&body, &Some(measured), Json::Null);
    assert!(!report.bool_at("passed", true));
    assert_eq!(
        report.array_at("issues").unwrap()[0].as_text(),
        Some("Duration mismatch: expected 20s, got 12.3s")
    );
    let info = report.get("media_info").unwrap();
    assert_eq!(info.text_at("format_name", ""), "mov");
    assert_eq!(info.array_at("streams").unwrap().len(), 1);
}

// ---------------------------------------------------------------------------
// Operator
// ---------------------------------------------------------------------------

#[test]
fn truncate_short() {
    assert_eq!(truncate("hello", 10), "hello");
}

#[test]
fn truncate_long() {
    let result = truncate("a very long title that exceeds", 15);
    assert!(result.len() <= 15);
    assert!(result.ends_with("..."));
    assert_eq!(result, "a very long ...");
}

#[test]
fn cuts_inside_a_character_are_told() {
    assert!(can_truncate("äöü", 6));
    assert!(can_truncate("äöüä", 7));
    assert_eq!(truncate("äöüä", 7), "äö...");
    assert!(!can_truncate("äöüä", 6));
    assert_eq!(truncate("abcd", 2), "...");
}

fn job(title: &str) -> PipelineJob {
    PipelineJob {
        job_id: "job-1".into(),
        submitted_at: Timestamp { seconds: 1_700_000_000, nanos: 0 },
        status: JobStatus::Running,
        current_stage: Stage::Tts,
        request: PipelineJobRequest {
            title: title.into(),
            idea: "i".into(),
            audience: "a".into(),
            target_duration_seconds: 60,
            tone: "t".into(),
            must_include: vec![],
            must_avoid: vec![],
        },
    }
}

fn status(code: u16, text: &str) -> HttpStatus {
    HttpStatus { code, text: text.into() }
}

#[test]
fn submitted_jobs_are_shown() {
    let lines = submit_job(&status(201, "201 Created"), "", &Some(job("T"))).unwrap();
    assert_eq!(
        lines,
        vec!["Job created: job-1", "  Title:  T", "  Status: Running", "  Stage:  Tts"]
    );
    let e = submit_job(&status(400, "400 Bad Request"), "no", &None).unwrap_err();
    assert_eq!(e, "API returned 400 Bad Request: no");
    let e = submit_job(&status(201, "201 Created"), "", &None).unwrap_err();
    assert_eq!(e, "failed to parse response");
}

#[test]
fn jobs_are_shown_with_their_time() {
    let lines = get_status("job-1", &status(200, "200 OK"), &Some(job("T"))).unwrap();
    assert_eq!(lines[0], "Job:    job-1");
    assert_eq!(lines[4], "Submitted: 2023-11-14 22:13:20 UTC");
    let e = get_status("job-1", &status(404, "404 Not Found"), &None).unwrap_err();
    assert_eq!(e, "Job 'job-1' not found");
    assert_eq!(
        job_error("j", &status(500, "500 Internal Server Error")).unwrap(),
        "API returned 500 Internal Server Error"
    );
    assert_eq!(api_error("Orchestrator", &status(200, "200 OK")), None);
}

#[test]
fn details_are_shown() {
    let detail = json(
        r#"{"job_id": "j", "request": {"title": "T"}, "status": "Running",
            "current_stage": "Tts", "completed_stages": ["Planning", 3, "Research"]}"#,
    );
    assert_eq!(
        show_detail(&detail),
        vec![
            "Job:       j",
            "Title:     T",
            "Status:    Running",
            "Stage:     Tts",
            "Submitted: ?",
            "\nCompleted stages:",
            "  - Planning",
            "  - Research",
        ]
    );
    let fresh = json(r#"{"completed_stages": []}"#);
    assert_eq!(show_detail(&fresh)[5], "\nNo completed stages yet.");
    assert_eq!(show_detail(&json("{}")).len(), 5);
    assert_eq!(
        show_output("Planning", &value(r#"{"b": [1, "x"], "a": null}"#)).unwrap(),
        r#"  Planning: {"a":null,"b":[1,"x"]}"#
    );
    let long = serde_json::Value::String("y".repeat(200));
    assert_eq!(
        show_output("S", &long).unwrap(),
        format!("  S: \"{}...", "y".repeat(116))
    );
    let uncut = serde_json::Value::String("ä".repeat(80));
    assert!(show_output("S", &uncut).is_some());
    let cut_badly = serde_json::Value::String(format!("x{}", "ä".repeat(80)));
    assert!(show_output("S", &cut_badly).is_none());
}

#[test]
fn outputs_are_shown_under_a_heading() {
    assert_eq!(
        show_outputs(value(r#"{"Tts": [1], "Planning": {}}"#)).unwrap(),
        vec!["\nStage outputs:", "  Planning: {}", "  Tts: [1]"]
    );
    assert_eq!(
        show_outputs(value(r#"{"é": 1, "b": 2, "a\uFFFF": 3, "a😀": 4, "a": 5, "B": 6, "": 7}"#))
            .unwrap(),
        vec![
            "\nStage outputs:",
            "  : 7",
            "  B: 6",
            "  a: 5",
            "  a\u{ffff}: 3",
            "  a😀: 4",
            "  b: 2",
            "  é: 1"
        ]
    );
    assert!(show_outputs(value("{}")).unwrap().is_empty());
    assert!(show_outputs(serde_json::Value::Null).unwrap().is_empty());
    let bad = value(&format!(r#"{{"S": "x{}"}}"#, "ä".repeat(80)));
    assert!(show_outputs(bad).is_none());
}

#[test]
fn submissions_are_read_as_json() {
    let body = submission_body("f.json", r#"{"title": "T"}"#).unwrap();
    assert_eq!(body.text_at("title", ""), "T");
    assert_eq!(submission_body("f.json", "{").unwrap_err(), "invalid JSON in f.json");
}

#[test]
fn answers_to_retries_and_deletions_go_by_their_code() {
    assert_eq!(retry_job("j", 200).unwrap(), "Job 'j' re-enqueued for retry.");
    assert_eq!(retry_job("j", 404).unwrap_err(), "Job 'j' not found");
    assert_eq!(
        retry_job("j", 409).unwrap_err(),
        "Job 'j' is not in Failed state — only failed jobs can be retried"
    );
    assert_eq!(retry_job("j", 503).unwrap_err(), "API returned 503");
    assert_eq!(delete_job("j", 200).unwrap(), "Job 'j' deleted.");
    assert_eq!(delete_job("j", 404).unwrap_err(), "Job 'j' not found");
    assert_eq!(delete_job("j", 409).unwrap_err(), "API returned 409");
}

#[test]
fn logs_are_shown_with_tags() {
    assert_eq!(get_logs("j", &vec![]), vec!["No events recorded for job 'j'."]);
    let events = vec![
        json(r#"{"timestamp": "t1", "level": "error", "message": "m1"}"#),
        json(r#"{"timestamp": "t2", "level": "warn", "message": "m2"}"#),
        json("{}"),
    ];
    assert_eq!(
        get_logs("j", &events),
        vec!["t1  [ERR ]  m1", "t2  [WARN]  m2", "?  [INFO]  ?", "\n3 event(s)"]
    );
}

#[test]
fn health_is_shown_as_a_table() {
    let report = json(
        r#"{"running": true, "pending_jobs": 2, "services": [
            {"name": "Planning", "url": "u1", "healthy": true},
            {"name": "Tts", "url": "u2", "healthy": false, "error": "refused"}]}"#,
    );
    assert_eq!(
        show_health(&report),
        vec![
            "Orchestrator: running | Pending jobs: 2".to_string(),
            "\nSERVICE          STATUS   URL".to_string(),
            "-".repeat(70),
            "Planning         UP       u1".to_string(),
            "Tts              DOWN     u2".to_string(),
            "                 refused".to_string(),
        ]
    );
    assert_eq!(show_health(&json("{}")), vec!["Orchestrator: stopped | Pending jobs: 0"]);
}

#[test]
fn jobs_are_listed_as_a_table() {
    assert_eq!(list_jobs(&vec![]), vec!["No jobs found."]);
    let jobs = vec![job("A title that is quite a bit too long")];
    assert!(can_list(&jobs));
    let lines = list_jobs(&jobs);
    assert_eq!(
        lines[0],
        format!("{:<38} {:<30} {:<12} STAGE", "JOB ID", "TITLE", "STATUS")
    );
    assert_eq!(lines[1], "-".repeat(95));
    assert_eq!(
        lines[2],
        format!("{:<38} {:<30} Running Tts", "job-1", "A title that is quite a b...")
    );
    assert_eq!(lines[3], "\n1 job(s) total");
    assert!(!can_list(&vec![job(&"ä".repeat(20))]));
}

// ---------------------------------------------------------------------------
// Demo
// ---------------------------------------------------------------------------

#[test]
fn summaries_count_what_matters() {
    let s = |stage: &str, output: &str| summarize_output(stage, value(output)).unwrap();
    assert_eq!(
        s("Planning", r#"{"segments": [1, 2], "research_queries": [1]}"#),
        "2 segments, 1 research queries"
    );
    assert_eq!(s("Research", "[1, 2, 3]"), "3 research packet(s)");
    assert_eq!(s("Research", "{}"), "1 research packet(s)");
    assert_eq!(s("Script", "{}"), "0 narration segments");
    assert_eq!(s("Tts", r#"{"segment_files": [1]}"#), "1 audio file(s)");
    assert_eq!(s("AsrValidation", r#"{"passed": true}"#), "PASSED");
    assert_eq!(s("AsrValidation", "{}"), "FAILED");
    assert_eq!(s("Captions", r#"{"cue_count": 4}"#), "4 caption cue(s)");
    assert_eq!(s("RenderFinal", r#"{"format": "mp4", "output_path": "/o"}"#), "mp4 → /o");
    assert_eq!(s("QaFinal", r#"{"passed": true}"#), "PASSED (0 issues)");
    assert_eq!(s("QaFinal", r#"{"issues": [1, 2]}"#), "FAILED (2 issue(s))");
    assert_eq!(s("Other", r#"{"k": "v"}"#), r#"{"k":"v"}"#);
    let long = format!("\"{}\"", "z".repeat(100));
    assert_eq!(s("Other", &long), format!("\"{}...", "z".repeat(76)));
    let bad = format!("\"{}\"", "ä".repeat(100));
    assert!(summarize_output("Other", value(&bad)).is_some());
    let bad = format!("\"x{}\"", "ä".repeat(100));
    assert!(summarize_output("Other", value(&bad)).is_none());
    assert!(summarize_output("Tts", value(&bad)).is_some());
}

#[test]
fn progress_is_counted_by_stage() {
    assert_eq!(progress_label("Planning"), "[1/8]");
    assert_eq!(progress_label("QaFinal"), "[8/8]");
    assert_eq!(progress_label("Complete"), "[---]");
}

#[test]
fn times_are_shown_without_date_and_zone() {
    assert_eq!(time_of("2026-01-01T10:20:30Z"), "10:20:30");
    assert_eq!(time_of("2026-01-01T10:20:30+00:00"), "10:20:30+00:00");
    assert_eq!(time_of("?"), "?");
    assert_eq!(time_of("aTbTcZZ"), "b");
    assert_eq!(time_of("ZZ"), "");
}

#[test]
fn the_demo_job_is_a_valid_request() {
    let job = demo_job();
    assert_eq!(job.text_at("title", ""), "Rust Memory Safety in 30 Seconds");
    assert_eq!(job.u64_at("target_duration_seconds", 0), 30);
    assert_eq!(job.array_at("must_include").unwrap().len(), 3);
    assert_eq!(mock_port(&vec![]), 3200);
    assert_eq!(mock_port(&vec![("MOCK_PORT".into(), "65536".into())]), 3200);
    assert_eq!(mock_port(&vec![("MOCK_PORT".into(), "8080".into())]), 8080);
}

#[test]
fn replies_of_the_gateway_are_read() {
    let created = read_created(value(r#"{"job_id": "j", "status": "Queued", "x": 1}"#));
    assert_eq!(created.job_id.as_deref(), Some("j"));
    assert_eq!(created.status, "\"Queued\"");
    let created = read_created(value(r#"{"job_id": 3}"#));
    assert!(created.job_id.is_none());
    assert_eq!(created.status, "null");
    let detail = read_detail(value(
        r#"{"completed_stages": ["a", "b"], "stage_outputs": {"Tts": {}, "Other": 5}}"#,
    ))
    .unwrap();
    assert_eq!(detail.completed, 2);
    assert_eq!(
        detail.outputs.unwrap(),
        vec![
            ("Other".to_string(), "5".to_string()),
            ("Tts".to_string(), "0 audio file(s)".to_string()),
        ]
    );
    let detail = read_detail(value("[]")).unwrap();
    assert_eq!(detail.completed, 0);
    assert!(detail.outputs.is_none());
}

fn probed(success: bool) -> DemoEvent {
    DemoEvent::Probed { answered: success, success }
}

#[test]
fn a_demo_runs_to_its_end() {
    let (mut demo, lines) = Demo::begin("http://api", 3200);
    assert_eq!(lines[1], "Step 1: Checking mock services...");
    assert!(matches!(
        demo.action(),
        DemoAction::Probe { url, seconds: 2 } if url == "http://127.0.0.1:3200/healthz"
    ));
    assert_eq!(
        demo.step(probed(false)),
        vec![
            "   Mock services not running at http://127.0.0.1:3200",
            "   Starting embedded mock server...\n"
        ]
    );
    assert!(matches!(demo.action(), DemoAction::StartServer(3200)));
    demo.step(DemoEvent::Started);
    for _ in 0..19 {
        assert!(matches!(demo.action(), DemoAction::Sleep(100)));
        demo.step(DemoEvent::Slept);
        assert!(matches!(demo.action(), DemoAction::Probe { seconds: 1, .. }));
        assert!(demo.step(probed(false)).is_empty());
    }
    demo.step(DemoEvent::Slept);
    assert_eq!(
        demo.step(probed(false)),
        vec![
            "   Mock services: STARTED at http://127.0.0.1:3200",
            "Step 2: Checking api-gateway..."
        ]
    );
    assert_eq!(demo.step(probed(true)).len(), 4);
    assert!(matches!(
        demo.action(),
        DemoAction::Submit { url, .. } if url == "http://api/jobs"
    ));
    let created = read_created(value(r#"{"job_id": "j", "status": "Queued"}"#));
    assert_eq!(
        demo.step(DemoEvent::Submitted(Submission::Accepted(created))),
        vec![
            "   Job ID: j",
            "   Status: \"Queued\"",
            "Step 4: Monitoring pipeline progress..."
        ]
    );
    assert!(matches!(
        demo.action(),
        DemoAction::Pause { limit_seconds: 120, milliseconds: 500 }
    ));
    demo.step(DemoEvent::Slept);
    assert!(matches!(
        demo.action(),
        DemoAction::GetJob { url } if url == "http://api/jobs/j"
    ));
    assert!(demo.step(DemoEvent::JobSeen(None)).is_empty());
    demo.step(DemoEvent::Slept);
    let running = r#"{"status": "Running", "current_stage": "Script"}"#;
    assert_eq!(
        demo.step(DemoEvent::JobSeen(Some(json(running)))),
        vec!["   [3/8] Running      Script"]
    );
    demo.step(DemoEvent::Slept);
    assert!(demo.step(DemoEvent::JobSeen(Some(json(running)))).is_empty());
    demo.step(DemoEvent::Slept);
    let done = r#"{"status": "Completed", "current_stage": "Complete"}"#;
    assert_eq!(
        demo.step(DemoEvent::JobSeen(Some(json(done)))),
        vec!["   [---] Completed    Complete", "Step 5: Fetching results..."]
    );
    assert!(matches!(
        demo.action(),
        DemoAction::GetDetail { url } if url == "http://api/jobs/j/detail"
    ));
    let detail = read_detail(value(
        r#"{"completed_stages": ["Tts"], "stage_outputs": {"Tts": {}}}"#,
    ))
    .unwrap();
    assert_eq!(
        demo.step(DemoEvent::DetailRead(DetailReply::Fetched(detail))),
        vec![
            "   Completed stages: 1/8",
            "",
            "   Stage outputs:",
            "   Tts              0 audio file(s)",
            "Step 6: Event timeline..."
        ]
    );
    let events = vec![json(r#"{"timestamp": "dT1Z", "level": "warn", "message": "m"}"#)];
    assert_eq!(
        demo.step(DemoEvent::EventsRead(Some(events))),
        vec!["   1  [WARN]  m", "   1 event(s) total"]
    );
    assert!(matches!(demo.action(), DemoAction::End(None)));
    assert!(demo.step(DemoEvent::Slept).is_empty());
    assert!(matches!(demo.phase, DemoPhase::Over(None)));
}

fn at_submission() -> Demo {
    let (mut demo, _) = Demo::begin("http://api", 1);
    demo.step(probed(true));
    demo.step(probed(true));
    demo
}

fn error(demo: &Demo) -> String {
    match demo.action() {
        DemoAction::End(Some(e)) => e,
        other => panic!("{other:?}"),
    }
}

#[test]
fn each_failure_of_a_demo_has_its_words() {
    let (mut demo, _) = Demo::begin("http://api", 1);
    demo.step(probed(true));
    let lines = demo.step(probed(false));
    assert_eq!(lines[6], "     PLANNER_URL=http://127.0.0.1:1 \\");
    assert_eq!(error(&demo), "api-gateway not reachable");

    let mut demo = at_submission();
    demo.step(DemoEvent::Submitted(Submission::Unsent));
    assert_eq!(error(&demo), "failed to submit job");

    let mut demo = at_submission();
    let refused = Submission::Refused { status: "400 Bad Request".into(), text: "no".into() };
    demo.step(DemoEvent::Submitted(refused));
    assert_eq!(error(&demo), "job submission failed: 400 Bad Request: no");

    let mut demo = at_submission();
    demo.step(DemoEvent::Submitted(Submission::Unread("eof".into())));
    assert_eq!(error(&demo), "eof");

    let mut demo = at_submission();
    demo.step(DemoEvent::Submitted(Submission::Accepted(read_created(value("{}")))));
    assert_eq!(error(&demo), "no job_id in response");
}

fn monitoring() -> Demo {
    let mut demo = at_submission();
    let created = read_created(value(r#"{"job_id": "j"}"#));
    demo.step(DemoEvent::Submitted(Submission::Accepted(created)));
    demo
}

#[test]
fn a_demo_ends_with_its_job_or_its_time() {
    let mut demo = monitoring();
    demo.step(DemoEvent::TimedOut);
    assert_eq!(error(&demo), "demo timed out waiting for job completion");

    let mut demo = monitoring();
    demo.step(DemoEvent::Slept);
    let failed = json(r#"{"status": "Failed", "current_stage": "Failed"}"#);
    assert_eq!(
        demo.step(DemoEvent::JobSeen(Some(failed))),
        vec!["   [---] Failed       Failed", ""]
    );
    let events: Vec<Json> =
        (0..7).map(|i| json(&format!(r#"{{"level": "info", "message": "m{i}"}}"#))).collect();
    assert_eq!(
        demo.step(DemoEvent::EventsRead(Some(events))),
        vec![
            "   Event log:",
            "   [info] m2",
            "   [info] m3",
            "   [info] m4",
            "   [info] m5",
            "   [info] m6"
        ]
    );
    assert_eq!(error(&demo), "job failed at stage Failed");

    let mut demo = monitoring();
    demo.step(DemoEvent::Slept);
    demo.step(DemoEvent::JobSeen(Some(json(r#"{"status": "Completed"}"#))));
    demo.step(DemoEvent::DetailRead(DetailReply::Unfetched));
    assert_eq!(error(&demo), "failed to fetch detail");
}
