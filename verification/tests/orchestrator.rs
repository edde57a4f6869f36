use media_pipeline::artifact_store::ArtifactStore;
use media_pipeline::dispatch::{
    check_health, dispatch_stage, parse_stage, Action, CallError, Dispatch, DispatchOutcome, Event,
    HttpStatus, Replies,
};
use media_pipeline::gateway::{retry_job, AppState};
use media_pipeline::job_queue::JobQueue;
use media_pipeline::json::{parse_json, Json};
use media_pipeline::orchestrator::{
    poll, poll_once, probe_targets, service_health, settle, status, Effect, OrchestratorStatus,
    Poll, PollConfig, ServiceHealth,
};
use media_pipeline::poll_loop::{LoopAction, LoopEvent, LoopPhase, PollLoop};
use media_pipeline::pipeline_types::{JobStatus, PipelineJob, PipelineJobRequest, Stage, Timestamp};
use media_pipeline::registry::{max_attempts_for_stage, stage_names, stage_to_path, ServiceRegistry};
use media_pipeline::stage_request::build_stage_request;

fn json(text: &str) -> Json {
    parse_json(text).unwrap()
}

fn to_value(v: &Json) -> serde_json::Value {
    match v {
        Json::Null => serde_json::Value::Null,
        Json::Bool(b) => serde_json::Value::Bool(*b),
        Json::Unsigned(n) => serde_json::Value::from(*n),
        Json::Negative(n) => serde_json::Value::from(*n),
        Json::Fraction(s) => serde_json::from_str(s).unwrap(),
        Json::Text(s) => serde_json::Value::String(s.clone()),
        Json::Array(items) => serde_json::Value::Array(items.iter().map(to_value).collect()),
        Json::Object(members) => serde_json::Value::Object(
            members.iter().map(|(k, v)| (k.clone(), to_value(v))).collect(),
        ),
    }
}

fn sample_job() -> PipelineJob {
    PipelineJob {
        job_id: "test-1".into(),
        submitted_at: Timestamp { seconds: 0, nanos: 0 },
        status: JobStatus::Queued,
        current_stage: Stage::Planning,
        request: PipelineJobRequest {
            title: "Test Video".into(),
            idea: "A test idea".into(),
            audience: "developers".into(),
            target_duration_seconds: 120,
            tone: "informative".into(),
            must_include: vec![],
            must_avoid: vec![],
        },
    }
}

fn prior(pairs: &[(&str, &str)]) -> Vec<(String, Json)> {
    pairs.iter().map(|(k, v)| (k.to_string(), json(v))).collect()
}

fn ok_status() -> HttpStatus {
    HttpStatus { code: 200, text: "200 OK".into() }
}

fn good_replies() -> Replies {
    Replies {
        health: Ok(ok_status()),
        call: Ok(ok_status()),
        text: String::new(),
        body: Ok(json(r#"{"job_id": "test-1", "status": "ok"}"#)),
    }
}

fn mock_registry(base_url: &str) -> ServiceRegistry {
    ServiceRegistry::from_map(
        stage_names().into_iter().map(|s| (s.to_string(), base_url.to_string())).collect(),
    )
}

#[test]
fn mvp_stage_sequence() {
    let stages = [
        Stage::Planning,
        Stage::Research,
        Stage::Script,
        Stage::Tts,
        Stage::AsrValidation,
        Stage::Captions,
        Stage::RenderFinal,
        Stage::QaFinal,
    ];

    for i in 0..stages.len() - 1 {
        let next = stages[i].next_mvp().expect("expected a next stage");
        assert_eq!(next.to_string(), stages[i + 1].to_string());
    }

    assert!(matches!(Stage::QaFinal.next_mvp(), Some(Stage::Complete)));
    assert!(Stage::Complete.next_mvp().is_none());
    assert!(Stage::Failed.next_mvp().is_none());
}

#[test]
fn stages_outside_the_minimal_pipeline_lead_into_it() {
    assert!(matches!(Stage::Storyboard.next_mvp(), Some(Stage::Tts)));
    assert!(matches!(Stage::VisualGeneration.next_mvp(), Some(Stage::Tts)));
    assert!(matches!(Stage::MusicGeneration.next_mvp(), Some(Stage::Tts)));
    assert!(matches!(Stage::RenderPreview.next_mvp(), Some(Stage::RenderFinal)));
    assert!(matches!(Stage::QaPreview.next_mvp(), Some(Stage::RenderFinal)));
}

#[test]
fn stage_names_lead_back_to_stages() {
    assert_eq!(Stage::from_name("QaPreview"), Some(Stage::QaPreview));
    assert_eq!(Stage::from_name("MusicGeneration"), Some(Stage::MusicGeneration));
    assert_eq!(Stage::from_name("planning"), None);
    assert_eq!(Stage::from_name(""), None);
    assert_eq!(JobStatus::WaitingForReview.to_string(), "WaitingForReview");
}

#[test]
fn orchestrator_status_serializes() {
    let status = OrchestratorStatus {
        running: true,
        pending_jobs: 3,
        services: vec![ServiceHealth {
            name: "Planning".into(),
            url: "http://127.0.0.1:3191/healthz".into(),
            healthy: true,
            error: None,
        }],
    };
    let json = serde_json::to_string(&to_value(&status.body())).unwrap();
    assert!(json.contains("\"running\":true"));
    assert!(json.contains("\"pending_jobs\":3"));
    assert!(json.contains("\"healthy\":true"));
    assert!(!json.contains("\"error\""));
}

#[test]
fn stage_to_path_maps_correctly() {
    assert_eq!(stage_to_path("Planning"), "/plan");
    assert_eq!(stage_to_path("Research"), "/research");
    assert_eq!(stage_to_path("Script"), "/script");
    assert_eq!(stage_to_path("Tts"), "/tts");
    assert_eq!(stage_to_path("AsrValidation"), "/validate");
    assert_eq!(stage_to_path("Captions"), "/captions");
    assert_eq!(stage_to_path("RenderFinal"), "/render");
    assert_eq!(stage_to_path("QaFinal"), "/qa");
}

#[test]
fn unknown_stages_have_the_health_path() {
    assert_eq!(stage_to_path("Storyboard"), "/healthz");
}

#[test]
fn service_registry_builds_endpoints() {
    let registry = ServiceRegistry::from_env(&vec![]);
    let endpoint = registry.endpoint_for("Planning").unwrap();
    assert!(endpoint.ends_with("/plan"));
}

#[test]
fn variables_move_services() {
    let vars = vec![("TTS_URL".to_string(), "http://gpu:9".to_string())];
    let registry = ServiceRegistry::from_env(&vars);
    assert_eq!(registry.endpoint_for("Tts").unwrap(), "http://gpu:9/tts");
    assert_eq!(registry.healthz_url("Tts").unwrap(), "http://gpu:9/healthz");
    assert_eq!(registry.endpoint_for("QaFinal").unwrap(), "http://127.0.0.1:3198/qa");
    assert!(registry.endpoint_for("Storyboard").is_none());
    assert!(registry.healthz_url("Storyboard").is_none());
}

#[test]
fn gpu_stages_get_more_retries() {
    let default = 50;
    let vars = vec![];
    assert_eq!(max_attempts_for_stage("Tts", default, &vars), 100);
    assert_eq!(max_attempts_for_stage("AsrValidation", default, &vars), 100);
    assert_eq!(max_attempts_for_stage("RenderFinal", default, &vars), 100);
}

#[test]
fn cpu_stages_use_default_retries() {
    let default = 50;
    let vars = vec![];
    assert_eq!(max_attempts_for_stage("Planning", default, &vars), 50);
    assert_eq!(max_attempts_for_stage("Research", default, &vars), 50);
    assert_eq!(max_attempts_for_stage("Script", default, &vars), 50);
    assert_eq!(max_attempts_for_stage("Captions", default, &vars), 50);
    assert_eq!(max_attempts_for_stage("QaFinal", default, &vars), 50);
}

#[test]
fn retry_limits_can_be_set_by_stage() {
    let vars = vec![("MAX_RETRY_ASRVALIDATION".to_string(), "7".to_string())];
    assert_eq!(max_attempts_for_stage("AsrValidation", 50, &vars), 7);
    let vars = vec![("MAX_RETRY_TTS".to_string(), "many".to_string())];
    assert_eq!(max_attempts_for_stage("Tts", 50, &vars), 100);
    assert_eq!(max_attempts_for_stage("Tts", 3_000_000_000, &vars), u32::MAX);
}

#[test]
fn build_planning_request() {
    let job = sample_job();
    let body = build_stage_request("Planning", &job, &prior(&[])).unwrap();
    assert_eq!(body.text_at("job_id", ""), "test-1");
    assert_eq!(body.text_at("title", ""), "Test Video");
}

#[test]
fn build_research_request_without_plan() {
    let job = sample_job();
    let body = build_stage_request("Research", &job, &prior(&[])).unwrap();
    assert_eq!(body.text_at("job_id", ""), "test-1");
    let queries = body.array_at("queries").unwrap();
    assert!(queries.len() >= 2);
    assert_eq!(queries[0].as_text(), Some("Test Video overview"));
    assert_eq!(queries[1].as_text(), Some("A test idea for developers"));
}

#[test]
fn build_research_uses_plan_output() {
    let job = sample_job();
    let outputs =
        prior(&[("Planning", r#"{"job_id": "test-1", "research_queries": ["query from plan"]}"#)]);
    let body = build_stage_request("Research", &job, &outputs).unwrap();
    let queries = body.array_at("queries").unwrap();
    assert_eq!(queries.len(), 1);
    assert_eq!(queries[0].as_text(), Some("query from plan"));
}

#[test]
fn build_qa_uses_render_output() {
    let job = sample_job();
    let outputs =
        prior(&[("RenderFinal", r#"{"job_id": "test-1", "output_path": "/custom/path.mp4"}"#)]);
    let body = build_stage_request("QaFinal", &job, &outputs).unwrap();
    assert_eq!(body.text_at("output_path", ""), "/custom/path.mp4");
}

#[test]
fn build_script_includes_research() {
    let job = sample_job();
    let outputs = prior(&[(
        "Research",
        r#"{"job_id": "test-1", "query": "test overview",
            "facts": [{"claim": "Rust is fast", "source": "rust-lang.org", "confidence": 0.95}],
            "summary": "Rust performance"}"#,
    )]);
    let body = build_stage_request("Script", &job, &outputs).unwrap();
    assert!(matches!(body.get("plan"), Some(Json::Object(_))));
    let research = body.array_at("research").unwrap();
    assert!(!research.is_empty());
    let facts = research[0].array_at("facts").unwrap();
    assert_eq!(facts[0].text_at("claim", ""), "Rust is fast");
    assert!(matches!(facts[0].get("confidence"), Some(Json::Fraction(s)) if s == "0.95"));
}

#[test]
fn build_asr_uses_tts_and_script_outputs() {
    let job = sample_job();
    let outputs = prior(&[
        (
            "Tts",
            r#"{"job_id": "test-1", "segment_files": [
                {"segment_number": 1, "file_path": "/data/tts/test-1_seg001.mp3"},
                {"segment_number": 2, "file_path": "/data/tts/test-1_seg002.mp3"}]}"#,
        ),
        (
            "Script",
            r#"{"job_id": "test-1", "segments": [
                {"segment_number": 1, "narration_text": "Hello world"},
                {"segment_number": 2, "narration_text": "Goodbye world"}]}"#,
        ),
    ]);
    let body = build_stage_request("AsrValidation", &job, &outputs).unwrap();
    let segments = body.array_at("segments").unwrap();
    assert_eq!(segments.len(), 2);
    assert_eq!(segments[0].text_at("audio_path", ""), "/data/tts/test-1_seg001.mp3");
    assert_eq!(segments[0].text_at("expected_text", ""), "Hello world");
    assert_eq!(segments[1].text_at("audio_path", ""), "/data/tts/test-1_seg002.mp3");
    assert_eq!(segments[1].text_at("expected_text", ""), "Goodbye world");
}

#[test]
fn build_render_uses_tts_audio_paths() {
    let job = sample_job();
    let outputs = prior(&[(
        "Tts",
        r#"{"job_id": "test-1", "segment_files": [
            {"segment_number": 1, "file_path": "/data/tts/test-1_seg001.mp3"}]}"#,
    )]);
    let body = build_stage_request("RenderFinal", &job, &outputs).unwrap();
    let audio_files = body.array_at("audio_files").unwrap();
    assert_eq!(audio_files.len(), 1);
    assert_eq!(audio_files[0].as_text(), Some("/data/tts/test-1_seg001.mp3"));
}

#[test]
fn build_unsupported_stage_errors() {
    let job = sample_job();
    let e = build_stage_request("Unknown", &job, &prior(&[])).unwrap_err();
    assert_eq!(e, "unsupported stage: Unknown");
}

#[test]
fn dispatch_stage_success() {
    let mut store = ArtifactStore::new();
    store.save_job(&sample_job());
    let registry = mock_registry("http://127.0.0.1:9");

    let outcome = dispatch_stage(&registry, &mut store, "test-1", "Planning", "", &good_replies());
    assert!(matches!(outcome, DispatchOutcome::Completed(Some(Stage::Research))));
    assert!(store.get_stage_output("test-1", "Planning").is_some());
    let job = store.get_job("test-1").unwrap();
    assert!(matches!(job.status, JobStatus::Running));
    assert!(matches!(job.current_stage, Stage::Research));
}

#[test]
fn dispatch_stage_service_unavailable() {
    let mut store = ArtifactStore::new();
    store.save_job(&sample_job());
    let registry =
        ServiceRegistry::from_map(vec![("Planning".into(), "http://127.0.0.1:1".into())]);
    let mut replies = good_replies();
    replies.health = Err("connection refused".into());

    let outcome = dispatch_stage(&registry, &mut store, "test-1", "Planning", "", &replies);
    assert!(matches!(outcome, DispatchOutcome::ServiceUnavailable(_)));
}

#[test]
fn health_check_catches_down_service_before_dispatch() {
    let mut store = ArtifactStore::new();
    store.save_job(&sample_job());
    let registry =
        ServiceRegistry::from_map(vec![("Planning".into(), "http://127.0.0.1:1".into())]);
    let mut replies = good_replies();
    replies.health = Err("connection refused".into());

    let outcome = dispatch_stage(&registry, &mut store, "test-1", "Planning", "", &replies);
    match outcome {
        DispatchOutcome::ServiceUnavailable(reason) => assert_eq!(
            reason,
            "service Planning failed health check: connection refused"
        ),
        other => panic!("expected ServiceUnavailable, got {other:?}"),
    }
    let job = store.get_job("test-1").unwrap();
    assert!(matches!(job.status, JobStatus::Queued));
}

fn failure(outcome: DispatchOutcome) -> String {
    match outcome {
        DispatchOutcome::Failed(reason) => reason,
        other => panic!("expected Failed, got {other:?}"),
    }
}

#[test]
fn each_failure_of_a_dispatch_has_its_words() {
    let registry = mock_registry("http://h");
    let mut store = ArtifactStore::new();
    store.save_job(&sample_job());

    let r = dispatch_stage(&registry, &mut store, "test-1", "Nope", "unknown", &good_replies());
    assert_eq!(failure(r), "invalid stage 'Nope': unknown");

    let r = dispatch_stage(&registry, &mut store, "test-1", "Storyboard", "", &good_replies());
    assert_eq!(failure(r), "no endpoint for stage 'Storyboard'");

    let r = dispatch_stage(&registry, &mut store, "other", "Planning", "", &good_replies());
    assert_eq!(failure(r), "job 'other' not found");

    let odd = ServiceRegistry::from_map(vec![("Storyboard".into(), "http://h".into())]);
    let r = dispatch_stage(&odd, &mut store, "test-1", "Storyboard", "", &good_replies());
    assert_eq!(failure(r), "request build error: unsupported stage: Storyboard");

    let mut replies = good_replies();
    replies.call = Err(CallError { connect: false, timeout: false, error: "reset".into() });
    let r = dispatch_stage(&registry, &mut store, "test-1", "Tts", "", &replies);
    assert_eq!(failure(r), "HTTP error calling Tts: reset");

    let mut replies = good_replies();
    replies.call = Ok(HttpStatus { code: 500, text: "500 Internal Server Error".into() });
    replies.text = "boom".into();
    let r = dispatch_stage(&registry, &mut store, "test-1", "Tts", "", &replies);
    assert_eq!(failure(r), "service Tts returned 500 Internal Server Error: boom");

    let mut replies = good_replies();
    replies.body = Err("eof".into());
    let r = dispatch_stage(&registry, &mut store, "test-1", "Tts", "", &replies);
    assert_eq!(failure(r), "failed to parse response from Tts: eof");
}

#[test]
fn timeouts_of_a_call_are_unavailable() {
    let registry = mock_registry("http://h");
    let mut store = ArtifactStore::new();
    store.save_job(&sample_job());
    let mut replies = good_replies();
    replies.call = Err(CallError { connect: false, timeout: true, error: "late".into() });
    match dispatch_stage(&registry, &mut store, "test-1", "Tts", "", &replies) {
        DispatchOutcome::ServiceUnavailable(reason) => {
            assert_eq!(reason, "service Tts at http://h/tts unreachable: late")
        }
        other => panic!("{other:?}"),
    }
}

#[test]
fn failures_of_the_store_end_a_dispatch() {
    let registry = mock_registry("http://h");
    let d = Dispatch::begin(&registry, "test-1", "QaFinal", "").unwrap();
    assert!(matches!(d.action(), Action::Probe(url) if url == "http://h/healthz"));
    let d = d.step(Event::Probed(Ok(ok_status())));
    assert!(matches!(d.action(), Action::SetStatus(JobStatus::Running, Stage::QaFinal)));
    let d = d.step(Event::StatusSet(Err("locked".into())));
    match d.action() {
        Action::Finish(o) => assert_eq!(failure(o), "failed to update job status: locked"),
        other => panic!("{other:?}"),
    }

    let d = Dispatch::begin(&registry, "test-1", "QaFinal", "").unwrap();
    let d = d.step(Event::Probed(Ok(ok_status())));
    let d = d.step(Event::StatusSet(Ok(())));
    let d = d.step(Event::JobLoaded(Err("corrupt".into())));
    match d.action() {
        Action::Finish(o) => assert_eq!(failure(o), "store error: corrupt"),
        other => panic!("{other:?}"),
    }
}

#[test]
fn unsaved_outputs_and_stray_events_do_not_stop_a_dispatch() {
    let registry = mock_registry("http://h");
    let d = Dispatch::begin(&registry, "test-1", "QaFinal", "").unwrap();
    let d = d.step(Event::StatusSet(Ok(())));
    assert!(matches!(d.action(), Action::Probe(_)));
    let d = d.step(Event::Probed(Ok(ok_status())));
    let d = d.step(Event::StatusSet(Ok(())));
    let d = d.step(Event::JobLoaded(Ok(Some(sample_job()))));
    let d = d.step(Event::OutputsLoaded(vec![]));
    assert!(matches!(d.action(), Action::Call { endpoint, .. } if endpoint == "http://h/qa"));
    let d = d.step(Event::Called(Ok(ok_status())));
    assert!(matches!(d.action(), Action::ReadBody));
    let d = d.step(Event::BodyRead(Ok(Json::Null)));
    let d = d.step(Event::OutputSaved(Err("disk".into())));
    assert!(matches!(d.action(), Action::SetStatus(JobStatus::Completed, Stage::Complete)));
    let d = d.step(Event::StatusSet(Ok(())));
    assert!(matches!(d.action(), Action::Finish(DispatchOutcome::Completed(None))));
    let d = d.step(Event::StatusSet(Err("late".into())));
    assert!(matches!(d.action(), Action::Finish(DispatchOutcome::Completed(None))));
}

#[test]
fn stage_texts_are_read_as_json_strings() {
    assert_eq!(parse_stage("Captions"), Some(Stage::Captions));
    assert_eq!(parse_stage("T\\u0074s"), Some(Stage::Tts));
    assert_eq!(parse_stage("tts"), None);
    assert_eq!(parse_stage("Tts\""), None);
    assert_eq!(parse_stage(""), None);
}

#[test]
fn health_replies_are_judged_by_their_status() {
    assert_eq!(check_health(&Ok(HttpStatus { code: 204, text: "204 No Content".into() })), Ok(()));
    assert_eq!(
        check_health(&Ok(HttpStatus { code: 503, text: "503 Service Unavailable".into() })),
        Err("healthz returned 503 Service Unavailable".to_string())
    );
    assert_eq!(check_health(&Err("dns".into())), Err("dns".to_string()));
}

fn config() -> PollConfig {
    PollConfig::from_env(&vec![])
}

#[test]
fn poll_settings_have_defaults() {
    assert_eq!(
        config(),
        PollConfig { poll_interval: 5, unavailable_backoff: 15, default_max_attempts: 50 }
    );
    let vars = vec![
        ("POLL_INTERVAL_SECS".to_string(), "1".to_string()),
        ("UNAVAILABLE_BACKOFF_SECS".to_string(), "-1".to_string()),
        ("MAX_RETRY_ATTEMPTS".to_string(), "4294967296".to_string()),
    ];
    assert_eq!(
        PollConfig::from_env(&vars),
        PollConfig { poll_interval: 1, unavailable_backoff: 15, default_max_attempts: 50 }
    );
}

#[test]
fn polling_stops_waits_or_starts() {
    let mut queue = JobQueue::open_in_memory();
    assert!(matches!(poll(false, &mut queue, &config()), Poll::Wait(5)));
    queue.enqueue("j", "Tts").unwrap();
    assert!(matches!(poll(true, &mut queue, &config()), Poll::Stop));
    match poll(false, &mut queue, &config()) {
        Poll::Start(entry, Effect::Log { level, message }) => {
            assert_eq!(entry.job_id, "j");
            assert_eq!(level, "info");
            assert_eq!(message, "dispatching stage Tts");
        }
        other => panic!("{other:?}"),
    }
}

#[test]
fn unavailable_services_hold_a_job_until_the_limit() {
    let vars = vec![("MAX_RETRY_PLANNING".to_string(), "2".to_string())];
    let mut state = AppState { store: ArtifactStore::new(), queue: JobQueue::open_in_memory() };
    state.store.save_job(&sample_job());
    state.queue.enqueue("test-1", "Planning").unwrap();
    let registry = mock_registry("http://h");
    let mut replies = good_replies();
    replies.health = Err("down".into());

    for attempt in 1..=2 {
        assert!(poll_once(&mut state, &registry, &config(), &vars, "", &replies, "t"));
        let job = state.store.get_job("test-1").unwrap();
        assert!(matches!(job.status, JobStatus::Pending));
        assert!(matches!(job.current_stage, Stage::Planning));
        assert_eq!(state.queue.rows[0].entry.attempts, attempt);
        assert!(!state.queue.rows[0].claimed);
    }
    assert!(poll_once(&mut state, &registry, &config(), &vars, "", &replies, "t"));
    let job = state.store.get_job("test-1").unwrap();
    assert!(matches!(job.status, JobStatus::Failed));
    assert!(matches!(job.current_stage, Stage::Planning));
    assert!(state.queue.rows.is_empty());
    let events = state.store.list_events("test-1");
    assert_eq!(events.len(), 6);
    assert_eq!(
        events[5].message,
        "stage Planning service unavailable (attempt 3): service Planning failed health check: down"
    );
    assert_eq!(events[5].level, "warn");
    assert!(!poll_once(&mut state, &registry, &config(), &vars, "", &replies, "t"));
}

#[test]
fn failed_stages_fail_their_job() {
    let mut state = AppState { store: ArtifactStore::new(), queue: JobQueue::open_in_memory() };
    state.store.save_job(&sample_job());
    state.queue.enqueue("test-1", "Planning").unwrap();
    let mut replies = good_replies();
    replies.body = Err("eof".into());
    poll_once(&mut state, &mock_registry("http://h"), &config(), &vec![], "", &replies, "t");
    let job = state.store.get_job("test-1").unwrap();
    assert!(matches!(job.status, JobStatus::Failed));
    assert!(state.queue.rows.is_empty());
    let events = state.store.list_events("test-1");
    assert_eq!(events[1].level, "error");
    assert_eq!(
        events[1].message,
        "stage Planning failed: failed to parse response from Planning: eof"
    );
}

#[test]
fn a_retry_takes_up_the_stage_that_failed() {
    let mut state = AppState { store: ArtifactStore::new(), queue: JobQueue::open_in_memory() };
    state.store.save_job(&sample_job());
    state.queue.enqueue("test-1", "Script").unwrap();
    let mut replies = good_replies();
    replies.call = Ok(HttpStatus { code: 500, text: "500 Internal Server Error".into() });
    let registry = mock_registry("http://h");
    poll_once(&mut state, &registry, &config(), &vec![], "", &replies, "t");
    let job = state.store.get_job("test-1").unwrap();
    assert!(matches!(job.status, JobStatus::Failed));
    assert!(matches!(job.current_stage, Stage::Script));

    assert_eq!(retry_job(&mut state, "test-1").unwrap(), 200);
    assert_eq!(state.queue.rows.len(), 1);
    assert_eq!(state.queue.rows[0].entry.stage, "Script");
    poll_once(&mut state, &registry, &config(), &vec![], "", &good_replies(), "t");
    assert_eq!(state.queue.dequeue().unwrap().stage, "Tts");
    assert!(state.store.get_stage_output("test-1", "Script").is_some());
}

#[test]
fn only_unknown_stages_fail_at_no_stage_of_their_own() {
    let mut queue = JobQueue::open_in_memory();
    queue.enqueue("j", "Nope").unwrap();
    queue.enqueue("j", "Captions").unwrap();
    let failed = DispatchOutcome::Failed("x".into());
    let entry = queue.dequeue().unwrap();
    let effects = settle(&entry, &failed, &config(), &vec![]);
    assert!(matches!(effects[1], Effect::SetStatus(JobStatus::Failed, Stage::Failed)));
    let entry = queue.dequeue().unwrap();
    let effects = settle(&entry, &failed, &config(), &vec![]);
    assert!(matches!(effects[1], Effect::SetStatus(JobStatus::Failed, Stage::Captions)));
}

#[test]
fn entries_are_settled_before_the_next_is_claimed() {
    let mut queue = JobQueue::open_in_memory();
    queue.enqueue("a", "Tts").unwrap();
    queue.enqueue("b", "Tts").unwrap();
    let mut l = PollLoop::begin(config(), vec![]);
    assert!(matches!(l.action(), LoopAction::Claim));
    l = l.step(LoopEvent::Polled(poll(false, &mut queue, &config())));
    assert!(matches!(l.action(), LoopAction::CarryOut(e, Effect::Log { .. }) if e.job_id == "a"));
    l = l.step(LoopEvent::Polled(Poll::Stop));
    l = l.step(LoopEvent::CarriedOut);
    assert!(matches!(l.action(), LoopAction::Dispatch(e) if e.job_id == "a"));
    l = l.step(LoopEvent::CarriedOut);
    l = l.step(LoopEvent::Dispatched(DispatchOutcome::Completed(Some(Stage::AsrValidation))));
    assert!(matches!(l.action(), LoopAction::CarryOut(_, Effect::Log { .. })));
    l = l.step(LoopEvent::CarriedOut);
    assert!(matches!(l.action(), LoopAction::CarryOut(_, Effect::Acknowledge)));
    l = l.step(LoopEvent::CarriedOut);
    assert!(matches!(l.action(), LoopAction::CarryOut(_, Effect::Enqueue(s)) if s == "AsrValidation"));
    l = l.step(LoopEvent::CarriedOut);
    assert!(matches!(l.action(), LoopAction::Claim));
    l = l.step(LoopEvent::Polled(Poll::Wait(5)));
    assert!(matches!(l.action(), LoopAction::Sleep(5)));
    l = l.step(LoopEvent::Slept);
    l = l.step(LoopEvent::Polled(poll(true, &mut queue, &config())));
    assert!(matches!(l.action(), LoopAction::Stop));
    assert!(matches!(l.step(LoopEvent::Slept).phase, LoopPhase::Stopped));
}

#[test]
fn settling_an_unknown_stage_sets_no_status() {
    let mut queue = JobQueue::open_in_memory();
    queue.enqueue("j", "Nope").unwrap();
    let entry = queue.dequeue().unwrap();
    let effects =
        settle(&entry, &DispatchOutcome::ServiceUnavailable("x".into()), &config(), &vec![]);
    assert_eq!(effects.len(), 3);
    assert!(matches!(effects[1], Effect::Nack));
    assert!(matches!(effects[2], Effect::Sleep(15)));
}

#[test]
fn full_pipeline_with_mock_services() {
    let mut state = AppState { store: ArtifactStore::new(), queue: JobQueue::open_in_memory() };
    let registry = mock_registry("http://127.0.0.1:9");
    state.store.save_job(&sample_job());
    state.queue.enqueue("test-1", "Planning").unwrap();

    for expected_stage in stage_names() {
        let waiting = state.queue.rows.iter().find(|r| !r.claimed).unwrap();
        assert_eq!(waiting.entry.stage, expected_stage);
        assert!(poll_once(&mut state, &registry, &config(), &vec![], "", &good_replies(), "t"));
    }

    let final_job = state.store.get_job("test-1").unwrap();
    assert!(matches!(final_job.status, JobStatus::Completed));
    assert!(matches!(final_job.current_stage, Stage::Complete));
    assert!(state.queue.dequeue().is_none());
    for stage in stage_names() {
        assert!(state.store.get_stage_output("test-1", stage).is_some());
    }
    assert_eq!(state.store.list_events("test-1").len(), 16);
}

#[test]
fn reports_tell_what_is_up_and_what_is_down() {
    let registry = ServiceRegistry::from_map(vec![
        ("QaFinal".into(), "http://q".into()),
        ("Planning".into(), "http://p".into()),
        ("Other".into(), "http://o".into()),
    ]);
    let targets = probe_targets(&registry);
    assert_eq!(
        targets,
        vec![
            ("Planning".to_string(), "http://p/healthz".to_string()),
            ("QaFinal".to_string(), "http://q/healthz".to_string()),
        ]
    );
    let up = service_health("Planning", "http://p/healthz", &Ok(ok_status()));
    let down = service_health("QaFinal", "http://q/healthz", &Err("refused".into()));
    let report = status(None, vec![up, down]);
    assert_eq!(report.pending_jobs, 0);
    assert!(report.services[0].healthy);
    assert_eq!(report.services[1].error.as_deref(), Some("refused"));
    let services = report.body();
    let services = services.array_at("services").unwrap();
    assert_eq!(services[1].text_at("error", ""), "refused");
}
