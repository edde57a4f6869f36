use media_pipeline::artifact_store::ArtifactStore;
use media_pipeline::gateway::{
    create_job, create_job_as, delete_job, get_job, get_job_detail, get_job_events, healthz,
    list_jobs, retry_job, validate_request, ApiError, AppState, JsonBody,
};
use media_pipeline::job_queue::JobQueue;
use media_pipeline::json::{parse_json, Json};
use media_pipeline::pipeline_types::{JobStatus, PipelineJob, PipelineJobRequest, Stage, Timestamp};

fn test_state() -> AppState {
    AppState {
        store: ArtifactStore::new(),
        queue: JobQueue::open_in_memory(),
    }
}

fn json(text: &str) -> Json {
    parse_json(text).unwrap()
}

fn request(title: &str) -> PipelineJobRequest {
    PipelineJobRequest {
        title: title.into(),
        idea: "test".into(),
        audience: "devs".into(),
        target_duration_seconds: 60,
        tone: "casual".into(),
        must_include: vec![],
        must_avoid: vec![],
    }
}

fn job(id: &str, status: JobStatus, stage: Stage, title: &str) -> PipelineJob {
    PipelineJob {
        job_id: id.into(),
        submitted_at: Timestamp { seconds: 1_700_000_000, nanos: 0 },
        status,
        current_stage: stage,
        request: request(title),
    }
}

#[test]
fn healthz_returns_ok() {
    assert_eq!(healthz(), "ok");
}

#[test]
fn create_and_get_job() {
    let mut state = test_state();
    let req = PipelineJobRequest {
        title: "Test".into(),
        idea: "Test idea".into(),
        audience: "devs".into(),
        target_duration_seconds: 60,
        tone: "casual".into(),
        must_include: vec![],
        must_avoid: vec![],
    };
    let (code, created) = create_job(&mut state, req).unwrap();
    assert_eq!(code, 201);
    let fetched = get_job(&state, &created.job_id).unwrap();
    assert_eq!(fetched.job_id, created.job_id);
    assert_eq!(fetched.request.title, "Test");
}

#[test]
fn new_jobs_have_random_names_and_a_recent_time() {
    let mut state = test_state();
    let (_, a) = create_job(&mut state, request("A")).unwrap();
    let (_, b) = create_job(&mut state, request("B")).unwrap();
    assert_ne!(a.job_id, b.job_id);
    assert_eq!(a.job_id.len(), 36);
    assert_eq!(a.job_id.as_bytes()[14], b'4');
    assert_eq!(a.job_id.matches('-').count(), 4);
    assert!(a.submitted_at.seconds > 1_600_000_000);
    assert!(a.submitted_at.nanos < 2_000_000_000);
    assert!(matches!(a.status, JobStatus::Queued));
    assert!(matches!(a.current_stage, Stage::Planning));
    let entry = state.queue.dequeue().unwrap();
    assert_eq!(entry.job_id, a.job_id);
    assert_eq!(entry.stage, "Planning");
}

#[test]
fn get_missing_job_returns_404() {
    let state = test_state();
    assert_eq!(get_job(&state, "nonexistent").unwrap_err().code, 404);
}

#[test]
fn get_job_detail_includes_stage_outputs() {
    let mut state = test_state();
    state.store.save_job(&job("detail-1", JobStatus::Running, Stage::Research, "Detail Test"));
    state.store.save_stage_output("detail-1", "Planning", &json(r#"{"plan": "done"}"#));

    let detail = get_job_detail(&state, "detail-1").unwrap();
    assert_eq!(detail.job.job_id, "detail-1");
    assert_eq!(detail.completed_stages, vec!["Planning"]);
    let plan = detail.stage_outputs.get("Planning").unwrap();
    assert_eq!(plan.text_at("plan", ""), "done");
}

#[test]
fn detail_of_a_missing_job_is_404() {
    let state = test_state();
    assert_eq!(get_job_detail(&state, "nonexistent").unwrap_err().code, 404);
}

#[test]
fn list_jobs_empty() {
    let state = test_state();
    assert!(list_jobs(&state).unwrap().is_empty());
}

#[test]
fn get_job_events_returns_log() {
    let mut state = test_state();
    state.store.append_event("evt-1", "info", "dispatching stage Planning");
    state.store.append_event("evt-1", "info", "stage Planning completed");

    let events = get_job_events(&state, "evt-1").unwrap();
    assert_eq!(events.len(), 2);
    assert_eq!(events[0].level, "info");
    assert!(events[0].message.contains("Planning"));
    assert!(chrono::DateTime::parse_from_rfc3339(&events[0].timestamp).is_ok());
}

#[test]
fn retry_failed_job() {
    let mut state = test_state();
    state.store.save_job(&job("retry-1", JobStatus::Failed, Stage::Script, "Retry Test"));

    assert_eq!(retry_job(&mut state, "retry-1").unwrap(), 200);

    let updated = state.store.get_job("retry-1").unwrap();
    assert!(matches!(updated.status, JobStatus::Queued));
    assert_eq!(state.queue.pending_count(), 1);
    assert_eq!(state.queue.dequeue().unwrap().stage, "Script");
}

#[test]
fn retry_non_failed_job_returns_conflict() {
    let mut state = test_state();
    state.store.save_job(&job("retry-2", JobStatus::Running, Stage::Script, "Retry Test"));
    assert_eq!(retry_job(&mut state, "retry-2").unwrap_err().code, 409);
    assert_eq!(state.queue.pending_count(), 0);
}

#[test]
fn a_second_retry_is_refused() {
    let mut state = test_state();
    state.store.save_job(&job("r", JobStatus::Failed, Stage::Script, "Retry Test"));
    assert_eq!(retry_job(&mut state, "r").unwrap(), 200);
    assert_eq!(retry_job(&mut state, "r").unwrap_err().code, 409);
    assert_eq!(state.queue.pending_count(), 1);
}

#[test]
fn delete_job_removes_data() {
    let mut state = test_state();
    state.store.save_job(&job("del-1", JobStatus::Completed, Stage::Complete, "Delete Test"));
    state.store.save_stage_output("del-1", "Planning", &json(r#"{"done": true}"#));
    state.store.append_event("del-1", "info", "x");
    state.queue.enqueue("del-1", "Planning").unwrap();

    assert_eq!(delete_job(&mut state, "del-1").unwrap(), 200);

    assert!(state.store.get_job("del-1").is_none());
    assert!(state.store.get_stage_output("del-1", "Planning").is_none());
    assert!(state.store.list_events("del-1").is_empty());
    assert_eq!(state.queue.pending_count(), 0);
}

#[test]
fn delete_missing_job_returns_404() {
    let mut state = test_state();
    assert_eq!(delete_job(&mut state, "nonexistent").unwrap_err().code, 404);
}

#[test]
fn error_response_contains_json_body() {
    let state = test_state();
    let body = get_job(&state, "nonexistent").unwrap_err().body();
    assert_eq!(body.u64_at("code", 0), 404);
    assert!(body.text_at("error", "").contains("not found"));
    assert_eq!(body.text_at("error", ""), "job 'nonexistent' not found");
}

#[test]
fn retry_conflict_returns_json_error() {
    let mut state = test_state();
    state.store.save_job(&job("err-1", JobStatus::Running, Stage::Script, "Test"));
    let body = retry_job(&mut state, "err-1").unwrap_err().body();
    assert_eq!(body.u64_at("code", 0), 409);
    assert!(body.text_at("error", "").contains("Running"));
    assert_eq!(
        body.text_at("error", ""),
        "job 'err-1' is Running — only failed jobs can be retried"
    );
}

#[test]
fn malformed_json_returns_400_with_json_error() {
    let parsed: Result<PipelineJobRequest, String> =
        Err(serde_json::from_slice::<serde_json::Value>(b"not json").unwrap_err().to_string());
    let body = JsonBody::from_parsed(parsed).unwrap_err().body();
    assert_eq!(body.u64_at("code", 0), 400);
    assert!(body.text_at("error", "").contains("invalid JSON"));
}

#[test]
fn a_body_that_parses_is_handed_on() {
    let body = JsonBody::from_parsed(Ok(request("T"))).unwrap();
    assert_eq!(body.0.title, "T");
}

#[test]
fn validate_rejects_empty_title() {
    let req = PipelineJobRequest {
        title: "  ".into(),
        idea: "test".into(),
        audience: "devs".into(),
        target_duration_seconds: 60,
        tone: "casual".into(),
        must_include: vec![],
        must_avoid: vec![],
    };
    let err = validate_request(&req).unwrap_err();
    assert_eq!(err.code, 400);
    assert!(err.error.contains("title"));
}

#[test]
fn validate_rejects_zero_duration() {
    let req = PipelineJobRequest {
        title: "Test".into(),
        idea: "test".into(),
        audience: "devs".into(),
        target_duration_seconds: 0,
        tone: "casual".into(),
        must_include: vec![],
        must_avoid: vec![],
    };
    let err = validate_request(&req).unwrap_err();
    assert_eq!(err.code, 400);
    assert!(err.error.contains("greater than 0"));
}

#[test]
fn validate_rejects_excessive_duration() {
    let req = PipelineJobRequest {
        title: "Test".into(),
        idea: "test".into(),
        audience: "devs".into(),
        target_duration_seconds: 7200,
        tone: "casual".into(),
        must_include: vec![],
        must_avoid: vec![],
    };
    let err = validate_request(&req).unwrap_err();
    assert_eq!(err.code, 400);
    assert!(err.error.contains("3600"));
}

#[test]
fn validate_accepts_valid_request() {
    let req = PipelineJobRequest {
        title: "Test".into(),
        idea: "test".into(),
        audience: "devs".into(),
        target_duration_seconds: 60,
        tone: "casual".into(),
        must_include: vec![],
        must_avoid: vec![],
    };
    assert!(validate_request(&req).is_ok());
}

#[test]
fn each_blank_field_is_named() {
    let mut req = request("T");
    req.idea = "\u{3000}\t".into();
    assert_eq!(validate_request(&req).unwrap_err().error, "idea must not be empty");
    let mut req = request("T");
    req.audience = "".into();
    assert_eq!(validate_request(&req).unwrap_err().error, "audience must not be empty");
    let mut req = request("T");
    req.tone = " ".into();
    assert_eq!(validate_request(&req).unwrap_err().error, "tone must not be empty");
}

#[test]
fn titles_are_measured_without_white_space() {
    let long = "a".repeat(200);
    assert!(validate_request(&request(&format!("  {long}  "))).is_ok());
    let e = validate_request(&request(&format!("{long}a"))).unwrap_err();
    assert_eq!(e.error, "title must be 200 characters or fewer");
}

#[test]
fn longest_duration_is_an_hour() {
    let mut req = request("T");
    req.target_duration_seconds = 3600;
    assert!(validate_request(&req).is_ok());
    req.target_duration_seconds = 3601;
    assert!(validate_request(&req).is_err());
}

#[test]
fn refused_requests_change_nothing() {
    let mut state = test_state();
    assert_eq!(create_job(&mut state, request(" ")).unwrap_err().code, 400);
    assert!(state.store.list_jobs().is_empty());
    assert_eq!(state.queue.pending_count(), 0);
}

#[test]
fn a_full_queue_is_an_internal_error() {
    let mut state = test_state();
    state.queue = JobQueue::from_rows(vec![], i64::MAX).unwrap();
    let e = create_job_as(
        &mut state,
        request("T"),
        "id".into(),
        Timestamp { seconds: 0, nanos: 0 },
        "at".into(),
    )
    .unwrap_err();
    assert_eq!(e.code, 500);
    assert_eq!(e.error, "failed to enqueue job: database or disk is full");
    assert!(state.store.get_job("id").is_some());
}

#[test]
fn storage_failures_are_internal_errors() {
    let e = ApiError::failed_to("list jobs", "disk I/O error");
    assert_eq!(e.code, 500);
    assert_eq!(e.error, "failed to list jobs: disk I/O error");
}

#[test]
fn saved_jobs_replace_earlier_ones() {
    let mut state = test_state();
    state.store.save_job(&job("a", JobStatus::Queued, Stage::Planning, "first"));
    state.store.save_job(&job("b", JobStatus::Queued, Stage::Planning, "other"));
    state.store.save_job(&job("a", JobStatus::Running, Stage::Tts, "second"));
    let jobs = list_jobs(&state).unwrap();
    assert_eq!(jobs.len(), 2);
    assert_eq!(jobs[0].request.title, "second");
    assert_eq!(jobs[1].request.title, "other");
}

#[test]
fn status_updates_of_missing_jobs_do_nothing() {
    let mut state = test_state();
    state.store.update_job_status("nobody", &JobStatus::Running, &Stage::Tts);
    assert!(state.store.list_jobs().is_empty());
}

#[test]
fn outputs_and_events_of_other_jobs_survive_a_deletion() {
    let mut state = test_state();
    state.store.save_job(&job("a", JobStatus::Queued, Stage::Planning, "A"));
    state.store.save_job(&job("b", JobStatus::Queued, Stage::Planning, "B"));
    state.store.save_stage_output("b", "Planning", &json("1"));
    state.store.append_event("b", "warn", "hello");
    assert!(state.store.delete_job("a"));
    assert!(!state.store.delete_job("a"));
    assert_eq!(state.store.get_job("b").unwrap().request.title, "B");
    assert_eq!(state.store.get_stage_output("b", "Planning").unwrap().as_u64(), Some(1));
    assert_eq!(state.store.list_events("b").len(), 1);
}

#[test]
fn later_outputs_replace_earlier_ones() {
    let mut state = test_state();
    state.store.save_stage_output("b", "Planning", &json("1"));
    state.store.save_stage_output("b", "Tts", &json("2"));
    state.store.save_stage_output("b", "Planning", &json("3"));
    let outputs = state.store.list_stage_outputs("b");
    assert_eq!(outputs.len(), 2);
    assert_eq!(outputs[0].stage, "Planning");
    assert_eq!(outputs[0].output.as_u64(), Some(3));
}

#[test]
fn http_lifecycle() {
    let mut state = test_state();

    assert_eq!(healthz(), "ok");
    assert!(list_jobs(&state).unwrap().is_empty());

    let req = PipelineJobRequest {
        title: "Integration Test".into(),
        idea: "test idea".into(),
        audience: "devs".into(),
        target_duration_seconds: 60,
        tone: "casual".into(),
        must_include: vec!["rust".into()],
        must_avoid: vec![],
    };
    let (code, created) = create_job(&mut state, req).unwrap();
    assert_eq!(code, 201);
    assert_eq!(created.status.to_string(), "Queued");
    let job_id = created.job_id;

    assert_eq!(get_job(&state, &job_id).unwrap().request.title, "Integration Test");
    assert_eq!(list_jobs(&state).unwrap().len(), 1);
    assert!(get_job_detail(&state, &job_id).unwrap().completed_stages.is_empty());
    assert!(get_job_events(&state, &job_id).unwrap().is_empty());
    assert_eq!(retry_job(&mut state, &job_id).unwrap_err().code, 409);
    assert_eq!(get_job(&state, "nonexistent").unwrap_err().code, 404);
    assert_eq!(create_job(&mut state, request("")).unwrap_err().code, 400);
    assert_eq!(delete_job(&mut state, &job_id).unwrap(), 200);
    assert_eq!(get_job(&state, &job_id).unwrap_err().code, 404);
}
