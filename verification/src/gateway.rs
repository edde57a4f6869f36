//! Entry point for the media pipeline: what each route of the API does.

use crate::artifact_store::{
    by_stage, event_views, job_views, law_deleted_jobs_leave_nothing,
    law_saved_jobs_are_read_back, law_saved_jobs_keep_their_place,
    law_status_updates_touch_one_job, lemma_job_place, output_stages, outputs_by_stage, stages_of,
    ArtifactStore, JobEvent, StoreView,
};
use crate::clock::{now, now_rfc3339};
use crate::job_queue::{
    law_added_entries_stand_last, law_removed_jobs_are_gone, JobQueue, QueueView, RowView,
};
use crate::json::{Json, JsonView};
use crate::pipeline_types::{
    JobStatus, JobView, PipelineJob, PipelineJobRequest, RequestView, Stage, Timestamp,
};
use crate::text::{
    byte_len, is_space, law_blank_texts, lemma_trimmed_twice, plus, trim, trimmed, views,
};
use vstd::prelude::*;
use vstd::string::*;
use vstd::utf8::encode_utf8;

verus! {

/// What a client is told when a request is refused.
#[derive(Debug, Clone)]
pub struct ApiError {
    pub code: u16,
    pub error: String,
}

/// What an [`ApiError`] says.
pub struct ErrorView {
    pub code: u16,
    pub error: Seq<char>,
}

impl View for ApiError {
    type V = ErrorView;

    open spec fn view(&self) -> ErrorView {
        ErrorView { code: self.code, error: self.error@ }
    }
}

impl ErrorView {
    /// The error as the body of a response.
    pub open spec fn body(self) -> JsonView {
        JsonView::Object(
            map![
                "code"@ => JsonView::Unsigned(self.code as u64),
                "error"@ => JsonView::Text(self.error),
            ],
        )
    }
}

impl ApiError {
    pub fn bad_request(error: &str) -> (r: ApiError)
        ensures
            r@ == (ErrorView { code: 400, error: error@ }),
    {
        ApiError { code: 400, error: error.to_string() }
    }

    pub fn not_found(error: &str) -> (r: ApiError)
        ensures
            r@ == (ErrorView { code: 404, error: error@ }),
    {
        ApiError { code: 404, error: error.to_string() }
    }

    pub fn conflict(error: &str) -> (r: ApiError)
        ensures
            r@ == (ErrorView { code: 409, error: error@ }),
    {
        ApiError { code: 409, error: error.to_string() }
    }

    pub fn internal(error: &str) -> (r: ApiError)
        ensures
            r@ == (ErrorView { code: 500, error: error@ }),
    {
        ApiError { code: 500, error: error.to_string() }
    }

    /// The error for an operation that the storage below could not carry out,
    /// such as "save job".
    pub fn failed_to(operation: &str, reason: &str) -> (r: ApiError)
        ensures
            r@ == failure(operation@, reason@),
    {
        let text = plus(plus(plus("failed to ".to_string(), operation), ": "), reason);
        ApiError::internal(text.as_str())
    }

    /// The error as the body of a response.
    pub fn body(&self) -> (r: Json)
        ensures
            r@ == self@.body(),
    {
        Json::object().with("code", Json::number(self.code as u32)).with(
            "error",
            Json::text(self.error.as_str()),
        )
    }
}

/// The error for an operation that the storage below could not carry out.
pub open spec fn failure(operation: Seq<char>, reason: Seq<char>) -> ErrorView {
    ErrorView { code: 500, error: "failed to "@ + operation + ": "@ + reason }
}

/// The error for a body that is no JSON of a request.
pub open spec fn unreadable(reason: Seq<char>) -> ErrorView {
    ErrorView { code: 400, error: "invalid JSON: "@ + reason }
}

/// The error for a request that is at fault.
pub open spec fn at_fault(fault: Seq<char>) -> ErrorView {
    ErrorView { code: 400, error: fault }
}

/// The error for a job that is not there.
pub open spec fn no_such_job(id: Seq<char>) -> ErrorView {
    ErrorView { code: 404, error: "job '"@ + id + "' not found"@ }
}

/// The error for a job that may not be retried.
pub open spec fn not_failed(id: Seq<char>, status: JobStatus) -> ErrorView {
    ErrorView {
        code: 409,
        error: "job '"@ + id + "' is "@ + status.name()
            + " — only failed jobs can be retried"@,
    }
}

fn no_such_job_error(id: &str) -> (r: ApiError)
    ensures
        r@ == no_such_job(id@),
{
    let text = plus(plus("job '".to_string(), id), "' not found");
    ApiError::not_found(text.as_str())
}

/// The body of a request, read as JSON.
#[derive(Debug)]
pub struct JsonBody<T>(pub T);

impl<T> JsonBody<T> {
    /// The body of a request, or the error for one that cannot be read.
    pub fn from_parsed(parsed: Result<T, String>) -> (r: Result<JsonBody<T>, ApiError>)
        ensures
            match parsed {
                Ok(value) => r == Ok::<JsonBody<T>, ApiError>(JsonBody(value)),
                Err(e) => r matches Err(error) && error@ == unreadable(e@),
            },
    {
        match parsed {
            Ok(value) => Ok(JsonBody(value)),
            Err(e) => {
                let text = plus("invalid JSON: ".to_string(), e.as_str());
                Err(ApiError::bad_request(text.as_str()))
            },
        }
    }
}

/// What the gateway works on.
#[derive(Debug)]
pub struct AppState {
    pub store: ArtifactStore,
    pub queue: JobQueue,
}

/// What an [`AppState`] holds.
#[verifier::ext_equal]
pub struct StateView {
    pub store: StoreView,
    pub queue: QueueView,
}

impl View for AppState {
    type V = StateView;

    open spec fn view(&self) -> StateView {
        StateView { store: self.store@, queue: self.queue@ }
    }
}

impl AppState {
    pub open spec fn wf(self) -> bool {
        self@.wf()
    }
}

impl StateView {
    pub open spec fn wf(self) -> bool {
        self.store.wf() && self.queue.wf()
    }

    /// Whether the queue takes one more entry.
    pub open spec fn has_room(self) -> bool {
        self.queue.last_id < i64::MAX
    }

    /// The state after a job was created.
    pub open spec fn created(self, job: JobView, at: Seq<char>) -> StateView {
        StateView {
            store: self.store.with_job(job),
            queue: if self.has_room() {
                self.queue.enqueued(job.job_id, "Planning"@, at)
            } else {
                self.queue
            },
        }
    }

    /// The state after a job was put back in line at the stage where it stands.
    pub open spec fn retried(self, id: Seq<char>, stage: Stage, at: Seq<char>) -> StateView {
        StateView {
            store: self.store.with_status(id, JobStatus::Queued, stage),
            queue: if self.has_room() {
                self.queue.enqueued(id, stage.name(), at)
            } else {
                self.queue
            },
        }
    }

    /// The state after a job was deleted.
    pub open spec fn deleted(self, id: Seq<char>) -> StateView {
        StateView { store: self.store.without_job(id), queue: self.queue.without_job(id) }
    }

    /// Whether a retry of the job is accepted.
    pub open spec fn may_retry(self, id: Seq<char>) -> bool {
        self.store.job(id) matches Some(job) && job.status == JobStatus::Failed
    }
}

/// The answer to a health check.
pub fn healthz() -> (r: &'static str)
    ensures
        r@ == "ok"@,
{
    "ok"
}

/// What is wrong with a request, if anything. The title is measured without
/// the white space around it, in bytes.
pub open spec fn request_fault(req: RequestView) -> Option<Seq<char>> {
    if trimmed(req.title).len() == 0 {
        Some("title must not be empty"@)
    } else if byte_len(trimmed(req.title)) > 200 {
        Some("title must be 200 characters or fewer"@)
    } else if trimmed(req.idea).len() == 0 {
        Some("idea must not be empty"@)
    } else if trimmed(req.audience).len() == 0 {
        Some("audience must not be empty"@)
    } else if trimmed(req.tone).len() == 0 {
        Some("tone must not be empty"@)
    } else if req.target_duration_seconds == 0 {
        Some("target_duration_seconds must be greater than 0"@)
    } else if req.target_duration_seconds > 3600 {
        Some("target_duration_seconds must be 3600 or fewer"@)
    } else {
        None
    }
}

fn is_blank(s: &str) -> (r: bool)
    ensures
        r == (trimmed(s@).len() == 0),
{
    trim(s).unicode_len() == 0
}

/// Refuse a request that leaves something out or asks for too much.
pub fn validate_request(req: &PipelineJobRequest) -> (r: Result<(), ApiError>)
    ensures
        match r {
            Ok(_) => request_fault(req@) is None,
            Err(e) => request_fault(req@) is Some && e@ == at_fault(request_fault(req@)->0),
        },
{
    let title = trim(req.title.as_str());
    if title.unicode_len() == 0 {
        return Err(ApiError::bad_request("title must not be empty"));
    }
    if title.as_bytes().len() > 200 {
        return Err(ApiError::bad_request("title must be 200 characters or fewer"));
    }
    if is_blank(req.idea.as_str()) {
        return Err(ApiError::bad_request("idea must not be empty"));
    }
    if is_blank(req.audience.as_str()) {
        return Err(ApiError::bad_request("audience must not be empty"));
    }
    if is_blank(req.tone.as_str()) {
        return Err(ApiError::bad_request("tone must not be empty"));
    }
    if req.target_duration_seconds == 0 {
        return Err(ApiError::bad_request("target_duration_seconds must be greater than 0"));
    }
    if req.target_duration_seconds > 3600 {
        return Err(ApiError::bad_request("target_duration_seconds must be 3600 or fewer"));
    }
    Ok(())
}

/// Whether a character is a hexadecimal digit in lower case.
pub open spec fn hex_digit(c: char) -> bool {
    '0' <= c <= '9' || 'a' <= c <= 'f'
}

/// Whether a text has the form of a random UUID: groups of eight, four, four,
/// four and twelve hexadecimal digits between hyphens, with version 4.
pub open spec fn is_random_uuid(s: Seq<char>) -> bool {
    &&& s.len() == 36
    &&& s[14] == '4'
    &&& forall|i: int|
        0 <= i < 36 ==> if i == 8 || i == 13 || i == 18 || i == 23 {
            #[trigger] s[i] == '-'
        } else {
            hex_digit(s[i])
        }
}

/// A new job name: `uuid::Uuid::new_v4` and its `to_string`.
///
/// The form of the text is claimed; which one it is depends on chance.
#[verifier::external_body]
fn new_job_id() -> (r: String)
    ensures
        is_random_uuid(r@),
{
    uuid::Uuid::new_v4().to_string()
}

/// The job that a request leads to.
pub open spec fn new_job(req: RequestView, id: Seq<char>, at: Timestamp) -> JobView {
    JobView {
        job_id: id,
        submitted_at: at,
        status: JobStatus::Queued,
        current_stage: Stage::Planning,
        request: req,
    }
}

/// What comes of a request that is accepted: the job is saved and waits for
/// planning. Where the queue has no room left the job is saved all the same,
/// and the answer is an error.
pub open spec fn creates(
    before: StateView,
    job: JobView,
    at: Seq<char>,
    after: StateView,
    reply: Result<(u16, PipelineJob), ApiError>,
) -> bool {
    &&& after == before.created(job, at)
    &&& if before.has_room() {
        reply matches Ok((code, j)) && code == 201 && j@ == job
    } else {
        reply matches Err(e) && e@ == failure("enqueue job"@, "database or disk is full"@)
    }
}

/// Create a job under the given name: check the request, save the job and put
/// it in line for planning.
pub fn create_job_as(
    state: &mut AppState,
    req: PipelineJobRequest,
    job_id: String,
    submitted_at: Timestamp,
    enqueued_at: String,
) -> (r: Result<(u16, PipelineJob), ApiError>)
    requires
        old(state).wf(),
    ensures
        final(state).wf(),
        request_fault(req@) matches Some(fault) ==> {
            &&& r matches Err(e) && e@ == at_fault(fault)
            &&& final(state)@ == old(state)@
        },
        request_fault(req@) is None ==> creates(
            old(state)@,
            new_job(req@, job_id@, submitted_at),
            enqueued_at@,
            final(state)@,
            r,
        ),
{
    match validate_request(&req) {
        Ok(_) => {},
        Err(e) => {
            return Err(e);
        },
    }
    let job = PipelineJob {
        job_id,
        submitted_at,
        status: JobStatus::Queued,
        current_stage: Stage::Planning,
        request: req,
    };
    state.store.save_job(&job);
    match state.queue.enqueue_at(job.job_id.as_str(), "Planning", enqueued_at) {
        Ok(_) => Ok((201, job)),
        Err(e) => Err(ApiError::failed_to("enqueue job", e.message())),
    }
}

/// Create a job: check the request, save the job under a new name and put it in
/// line for planning.
pub fn create_job(state: &mut AppState, req: PipelineJobRequest) -> (r: Result<
    (u16, PipelineJob),
    ApiError,
>)
    requires
        old(state).wf(),
    ensures
        final(state).wf(),
        request_fault(req@) matches Some(fault) ==> {
            &&& r matches Err(e) && e@ == at_fault(fault)
            &&& final(state)@ == old(state)@
        },
        request_fault(req@) is None ==> exists|id: Seq<char>, time: Timestamp, at: Seq<char>|
            is_random_uuid(id) && #[trigger] creates(
                old(state)@,
                new_job(req@, id, time),
                at,
                final(state)@,
                r,
            ),
{
    let id = new_job_id();
    let time = now();
    let at = now_rfc3339();
    create_job_as(state, req, id, time, at)
}

/// All jobs.
pub fn list_jobs(state: &AppState) -> (r: Result<Vec<PipelineJob>, ApiError>)
    ensures
        r matches Ok(jobs) && job_views(jobs@) == state@.store.jobs,
{
    Ok(state.store.list_jobs())
}

/// The job of that name.
pub fn get_job(state: &AppState, id: &str) -> (r: Result<PipelineJob, ApiError>)
    ensures
        match state@.store.job(id@) {
            Some(job) => r matches Ok(j) && j@ == job,
            None => r matches Err(e) && e@ == no_such_job(id@),
        },
{
    match state.store.get_job(id) {
        Some(job) => Ok(job),
        None => Err(no_such_job_error(id)),
    }
}

/// Enriched job detail with completed stage outputs.
#[derive(Debug)]
pub struct JobDetail {
    pub job: PipelineJob,
    pub completed_stages: Vec<String>,
    pub stage_outputs: Json,
}

/// A job together with what its stages have answered.
pub fn get_job_detail(state: &AppState, id: &str) -> (r: Result<JobDetail, ApiError>)
    ensures
        match state@.store.job(id@) {
            Some(job) => r matches Ok(d) && {
                &&& d.job@ == job
                &&& views(d.completed_stages@) == output_stages(state@.store.outputs_of(id@))
                &&& d.stage_outputs@ == JsonView::Object(
                    outputs_by_stage(state@.store.outputs_of(id@)),
                )
            },
            None => r matches Err(e) && e@ == no_such_job(id@),
        },
{
    let job = match state.store.get_job(id) {
        Some(job) => job,
        None => {
            return Err(no_such_job_error(id));
        },
    };
    let outputs = state.store.list_stage_outputs(id);
    let completed_stages = stages_of(&outputs);
    let members = by_stage(&outputs);
    Ok(JobDetail { job, completed_stages, stage_outputs: Json::Object(members) })
}

/// The event log of a job. It is empty for a job that is not there.
pub fn get_job_events(state: &AppState, id: &str) -> (r: Result<Vec<JobEvent>, ApiError>)
    ensures
        r matches Ok(events) && event_views(events@) == state@.store.events_of(id@),
{
    Ok(state.store.list_events(id))
}

/// Put a failed job back in line at the stage where it stands, as of the given
/// time.
pub fn retry_job_at(state: &mut AppState, id: &str, enqueued_at: String) -> (r: Result<
    u16,
    ApiError,
>)
    requires
        old(state).wf(),
    ensures
        final(state).wf(),
        match old(state)@.store.job(id@) {
            None => {
                &&& r matches Err(e) && e@ == no_such_job(id@)
                &&& final(state)@ == old(state)@
            },
            Some(job) => if job.status != JobStatus::Failed {
                &&& r matches Err(e) && e@ == not_failed(id@, job.status)
                &&& final(state)@ == old(state)@
            } else {
                &&& final(state)@ == old(state)@.retried(id@, job.current_stage, enqueued_at@)
                &&& if old(state)@.has_room() {
                    r == Ok::<u16, ApiError>(200)
                } else {
                    r matches Err(e) && e@ == failure("enqueue job"@, "database or disk is full"@)
                }
            },
        },
{
    let job = match state.store.get_job(id) {
        Some(job) => job,
        None => {
            return Err(no_such_job_error(id));
        },
    };
    if job.status != JobStatus::Failed {
        let text = plus(
            plus(
                plus(plus("job '".to_string(), id), "' is "),
                job.status.to_string().as_str(),
            ),
            " — only failed jobs can be retried",
        );
        return Err(ApiError::conflict(text.as_str()));
    }
    let stage = job.current_stage.to_string();
    state.store.update_job_status(id, &JobStatus::Queued, &job.current_stage);
    match state.queue.enqueue_at(id, stage.as_str(), enqueued_at) {
        Ok(_) => Ok(200),
        Err(e) => Err(ApiError::failed_to("enqueue job", e.message())),
    }
}

/// Put a failed job back in line at the stage where it stands.
pub fn retry_job(state: &mut AppState, id: &str) -> (r: Result<u16, ApiError>)
    requires
        old(state).wf(),
    ensures
        final(state).wf(),
        match old(state)@.store.job(id@) {
            None => {
                &&& r matches Err(e) && e@ == no_such_job(id@)
                &&& final(state)@ == old(state)@
            },
            Some(job) => if job.status != JobStatus::Failed {
                &&& r matches Err(e) && e@ == not_failed(id@, job.status)
                &&& final(state)@ == old(state)@
            } else {
                &&& exists|at: Seq<char>|
                    final(state)@ == #[trigger] old(state)@.retried(id@, job.current_stage, at)
                &&& if old(state)@.has_room() {
                    r == Ok::<u16, ApiError>(200)
                } else {
                    r matches Err(e) && e@ == failure("enqueue job"@, "database or disk is full"@)
                }
            },
        },
{
    let at = now_rfc3339();
    retry_job_at(state, id, at)
}

/// Remove a job, its data and its entries in the queue. The entries go even
/// where the job is not there.
pub fn delete_job(state: &mut AppState, id: &str) -> (r: Result<u16, ApiError>)
    requires
        old(state).wf(),
    ensures
        final(state).wf(),
        final(state)@ == old(state)@.deleted(id@),
        if old(state)@.store.job(id@) is Some {
            r == Ok::<u16, ApiError>(200)
        } else {
            r matches Err(e) && e@ == no_such_job(id@)
        },
{
    state.queue.remove_by_job_id(id);
    if state.store.delete_job(id) {
        Ok(200)
    } else {
        Err(no_such_job_error(id))
    }
}

// ---------------------------------------------------------------------------
// Laws
// ---------------------------------------------------------------------------

/// A created job can be read back, waits in the queue for planning, and cannot
/// be retried.
pub proof fn law_created_jobs_can_be_fetched(
    v: StateView,
    req: RequestView,
    id: Seq<char>,
    time: Timestamp,
    at: Seq<char>,
)
    requires
        v.wf(),
        v.has_room(),
    ensures
        ({
            let job = new_job(req, id, time);
            let w = v.created(job, at);
            &&& w.store.job(id) == Some(job)
            &&& w.queue.rows.last().entry.job_id == id
            &&& w.queue.rows.last().entry.stage == Stage::Planning.name()
            &&& !w.queue.rows.last().claimed
            &&& !w.may_retry(id)
        }),
{
    law_saved_jobs_are_read_back(v.store, new_job(req, id, time), id);
}

/// A deleted job is not found again, and nothing of it waits in the queue.
pub proof fn law_deleted_jobs_are_not_found(v: StateView, id: Seq<char>)
    requires
        v.wf(),
    ensures
        v.deleted(id).store.job(id) is None,
        v.deleted(id).store.outputs_of(id).len() == 0,
        v.deleted(id).store.events_of(id).len() == 0,
        forall|r: RowView| #[trigger]
            v.deleted(id).queue.rows.contains(r) ==> r.entry.job_id != id,
{
    law_deleted_jobs_leave_nothing(v.store, id, id);
    let keep = |r: RowView| r.entry.job_id != id;
    assert forall|r: RowView| #[trigger] v.deleted(id).queue.rows.contains(r) implies r.entry.job_id
        != id by {
        let i = choose|i: int|
            0 <= i < v.deleted(id).queue.rows.len() && v.deleted(id).queue.rows[i] == r;
        v.queue.rows.lemma_filter_pred(keep, i);
    }
}

/// A job that was put back in line is queued at the stage at which it had
/// stood, and a second retry of it is refused.
pub proof fn law_retried_jobs_wait_at_their_stage(v: StateView, id: Seq<char>, at: Seq<char>)
    requires
        v.wf(),
        v.has_room(),
        v.may_retry(id),
    ensures
        ({
            let stage = v.store.job(id)->0.current_stage;
            let w = v.retried(id, stage, at);
            &&& w.store.job(id) == Some(
                JobView { status: JobStatus::Queued, ..v.store.job(id)->0 },
            )
            &&& w.queue.rows.last().entry.job_id == id
            &&& w.queue.rows.last().entry.stage == stage.name()
            &&& !w.may_retry(id)
        }),
{
    let job = v.store.job(id)->0;
    lemma_job_place(v.store.jobs, id, 0);
    assert(job.job_id == id);
    law_saved_jobs_are_read_back(
        v.store,
        JobView { status: JobStatus::Queued, current_stage: job.current_stage, ..job },
        id,
    );
}

/// Which requests are accepted does not depend on what they are to include or
/// to avoid, nor on white space around the title.
pub proof fn law_white_space_around_a_title_is_ignored(
    req: RequestView,
    must_include: Seq<Seq<char>>,
    must_avoid: Seq<Seq<char>>,
)
    ensures
        request_fault(
            RequestView { title: trimmed(req.title), must_include, must_avoid, ..req },
        ) == request_fault(req),
{
    lemma_trimmed_twice(req.title);
}

/// What counts of an [`ApiError`] is what it holds, field by field.
pub proof fn law_errors_are_what_they_hold(error: ApiError)
    ensures
        error@.code == error.code,
        error@.error == error.error@,
{
}

/// What counts of an [`AppState`] is what it holds, field by field.
pub proof fn law_states_are_what_they_hold(state: AppState)
    ensures
        state@.store == state.store@,
        state@.queue == state.queue@,
{
}

/// Whether a text is all white space.
pub open spec fn blank(s: Seq<char>) -> bool {
    forall|i: int| 0 <= i < s.len() ==> is_space(#[trigger] s[i])
}

/// A request is accepted exactly where no text of it is blank, its title without
/// the white space around it has 200 bytes or fewer, and its duration is between
/// one second and an hour.
pub proof fn law_accepted_requests(req: RequestView)
    ensures
        request_fault(req) is None <==> !blank(req.title) && !blank(req.idea) && !blank(
            req.audience,
        ) && !blank(req.tone) && encode_utf8(trimmed(req.title)).len() <= 200 && 1
            <= req.target_duration_seconds <= 3600,
{
    law_blank_texts(req.title);
    law_blank_texts(req.idea);
    law_blank_texts(req.audience);
    law_blank_texts(req.tone);
}

/// What is wrong with a request is named by its first fault, in the order title,
/// idea, audience, tone, duration.
pub proof fn law_the_first_fault_is_named(req: RequestView)
    ensures
        blank(req.title) ==> request_fault(req) == Some("title must not be empty"@),
        !blank(req.title) ==> {
            &&& encode_utf8(trimmed(req.title)).len() > 200 ==> request_fault(req) == Some(
                "title must be 200 characters or fewer"@,
            )
            &&& encode_utf8(trimmed(req.title)).len() <= 200 ==> {
                &&& blank(req.idea) ==> request_fault(req) == Some("idea must not be empty"@)
                &&& !blank(req.idea) ==> {
                    &&& blank(req.audience) ==> request_fault(req) == Some(
                        "audience must not be empty"@,
                    )
                    &&& !blank(req.audience) ==> {
                        &&& blank(req.tone) ==> request_fault(req) == Some(
                            "tone must not be empty"@,
                        )
                        &&& !blank(req.tone) && req.target_duration_seconds == 0 ==> request_fault(
                            req,
                        ) == Some("target_duration_seconds must be greater than 0"@)
                        &&& !blank(req.tone) && req.target_duration_seconds > 3600
                            ==> request_fault(req) == Some(
                            "target_duration_seconds must be 3600 or fewer"@,
                        )
                    }
                }
            }
        },
{
    law_blank_texts(req.title);
    law_blank_texts(req.idea);
    law_blank_texts(req.audience);
    law_blank_texts(req.tone);
}

/// A new job is the request under its name and time, queued for planning.
pub proof fn law_new_jobs(req: RequestView, id: Seq<char>, time: Timestamp)
    ensures
        new_job(req, id, time).request == req,
        new_job(req, id, time).job_id == id,
        new_job(req, id, time).submitted_at == time,
        new_job(req, id, time).status == JobStatus::Queued,
        new_job(req, id, time).current_stage == Stage::Planning,
{
}

/// Creating a job adds that job and one free entry for its planning, and leaves
/// all other jobs, entries, answers and events alone. Where the queue has given
/// out its last number the queue stays as it is.
pub proof fn law_creating_leaves_the_rest(
    v: StateView,
    job: JobView,
    at: Seq<char>,
    other: Seq<char>,
    i: int,
)
    requires
        v.wf(),
    ensures
        ({
            let w = v.created(job, at);
            let n = v.queue.rows.len() as int;
            &&& w.store.job(job.job_id) == Some(job)
            &&& other != job.job_id ==> w.store.job(other) == v.store.job(other)
            &&& w.store.outputs == v.store.outputs
            &&& w.store.events == v.store.events
            &&& v.queue.last_id == i64::MAX ==> w.queue == v.queue
            &&& v.queue.last_id < i64::MAX ==> {
                &&& w.queue.rows.len() == n + 1
                &&& 0 <= i < n ==> w.queue.rows[i] == v.queue.rows[i]
                &&& w.queue.rows[n].entry.job_id == job.job_id
                &&& w.queue.rows[n].entry.stage == "Planning"@
                &&& w.queue.rows[n].entry.enqueued_at == at
                &&& w.queue.rows[n].entry.attempts == 0
                &&& !w.queue.rows[n].claimed
            }
        }),
{
    law_saved_jobs_are_read_back(v.store, job, other);
    law_saved_jobs_keep_their_place(v.store, job, 0);
    if v.queue.last_id < i64::MAX {
        law_added_entries_stand_last(v.queue, job.job_id, "Planning"@, at, i);
    }
}

/// A retry queues the job at the given stage, with one free entry for that
/// stage, and leaves all else alone.
pub proof fn law_retrying_leaves_the_rest(
    v: StateView,
    id: Seq<char>,
    stage: Stage,
    at: Seq<char>,
    other: Seq<char>,
    i: int,
)
    requires
        v.wf(),
    ensures
        ({
            let w = v.retried(id, stage, at);
            let n = v.queue.rows.len() as int;
            &&& v.store.job(id) matches Some(job) ==> w.store.job(id) == Some(
                JobView { status: JobStatus::Queued, current_stage: stage, ..job },
            )
            &&& other != id ==> w.store.job(other) == v.store.job(other)
            &&& w.store.outputs == v.store.outputs
            &&& w.store.events == v.store.events
            &&& v.queue.last_id == i64::MAX ==> w.queue == v.queue
            &&& v.queue.last_id < i64::MAX ==> {
                &&& w.queue.rows.len() == n + 1
                &&& 0 <= i < n ==> w.queue.rows[i] == v.queue.rows[i]
                &&& w.queue.rows[n].entry.job_id == id
                &&& w.queue.rows[n].entry.stage == stage.name()
                &&& w.queue.rows[n].entry.enqueued_at == at
                &&& w.queue.rows[n].entry.attempts == 0
                &&& !w.queue.rows[n].claimed
            }
            &&& v.may_retry(id) <==> v.store.job(id) is Some && v.store.job(id)->0.status
                == JobStatus::Failed
        }),
{
    law_status_updates_touch_one_job(v.store, id, JobStatus::Queued, stage, other);
    if v.queue.last_id < i64::MAX {
        law_added_entries_stand_last(v.queue, id, stage.name(), at, i);
    }
}

/// Deleting a job leaves the other jobs alone, with their answers, their events
/// and their places in the queue.
pub proof fn law_deleting_leaves_the_rest(v: StateView, id: Seq<char>, other: Seq<char>)
    requires
        v.wf(),
        other != id,
    ensures
        v.deleted(id).store.job(other) == v.store.job(other),
        v.deleted(id).store.outputs_of(other) == v.store.outputs_of(other),
        v.deleted(id).store.events_of(other) == v.store.events_of(other),
        v.deleted(id).queue.last_id == v.queue.last_id,
        forall|r: RowView| #[trigger]
            v.deleted(id).queue.rows.contains(r) <==> v.queue.rows.contains(r) && r.entry.job_id
                != id,
{
    law_deleted_jobs_leave_nothing(v.store, id, other);
    law_removed_jobs_are_gone(v.queue, id);
}

/// What a client is told of a refusal is its code and its text, and both say
/// what was refused.
pub proof fn law_refusals_say_why(
    e: ErrorView,
    id: Seq<char>,
    status: JobStatus,
    operation: Seq<char>,
    reason: Seq<char>,
)
    ensures
        e.body() is Object,
        e.body()->Object_0.contains_key("code"@),
        e.body()->Object_0["code"@] == JsonView::Unsigned(e.code as u64),
        e.body()->Object_0.contains_key("error"@),
        e.body()->Object_0["error"@] == JsonView::Text(e.error),
        no_such_job(id).code == 404,
        no_such_job(id).error == "job '"@ + id + "' not found"@,
        not_failed(id, status).code == 409,
        not_failed(id, status).error == "job '"@ + id + "' is "@ + status.name()
            + " — only failed jobs can be retried"@,
        failure(operation, reason).code == 500,
        failure(operation, reason).error == "failed to "@ + operation + ": "@ + reason,
{
    reveal_strlit("code");
    reveal_strlit("error");
    assert("code"@.len() != "error"@.len());
}

/// The name of a new job has 36 characters, four of them hyphens, and is of
/// version four; all others are digits or letters from `a` to `f`.
pub proof fn law_names_of_new_jobs(s: Seq<char>, i: int)
    requires
        is_random_uuid(s),
        0 <= i < 36,
    ensures
        s.len() == 36,
        s[14] == '4',
        i == 8 || i == 13 || i == 18 || i == 23 ==> s[i] == '-',
        i != 8 && i != 13 && i != 18 && i != 23 ==> '0' <= s[i] <= '9' || 'a' <= s[i] <= 'f',
{
}

/// Whoever creates a job is told 201 and the job, or that the queue is full.
pub proof fn law_creating_is_answered(
    before: StateView,
    job: JobView,
    at: Seq<char>,
    after: StateView,
    reply: Result<(u16, PipelineJob), ApiError>,
)
    requires
        creates(before, job, at, after, reply),
    ensures
        before.queue.last_id < i64::MAX ==> reply is Ok && reply->Ok_0.0 == 201
            && reply->Ok_0.1@ == job,
        before.queue.last_id == i64::MAX ==> reply is Err && reply->Err_0.code == 500
            && reply->Err_0.error@ == "failed to "@ + "enqueue job"@ + ": "@
            + "database or disk is full"@,
        after == before.created(job, at),
{
}

/// A request that is at fault or cannot be read is answered with 400 and with
/// what is wrong.
pub proof fn law_bad_requests(reason: Seq<char>)
    ensures
        at_fault(reason).code == 400,
        at_fault(reason).error == reason,
        unreadable(reason).code == 400,
        unreadable(reason).error == "invalid JSON: "@ + reason,
{
}

} // verus!
