//! Stage dispatch: call downstream services and handle outcomes.
//!
//! A [`Dispatch`] says what is to be done next ([`Dispatch::action`]) and takes
//! what came of it ([`Dispatch::step`]), until it has an outcome.

use crate::artifact_store::{
    by_stage, law_saved_outputs_are_read_back, law_status_updates_touch_one_job,
    lemma_job_place, lemma_output_place, outputs_by_stage, ArtifactStore, StoreView,
};
use crate::json::{is_plain_string, members_view, parse_json, parsed_text, unquoted, Json, JsonView};
use crate::pipeline_types::{
    law_only_terminal_stages_end, law_stages_are_found_by_name, law_successors_are_minimal,
    lemma_stage_names_are_plain, mvp_stages, stage_named, JobStatus, JobView, PipelineJob, Stage,
};
use crate::registry::{endpoint, health_url, text_view, ServiceRegistry};
use crate::stage_request::{build_stage_request, stage_body};
use crate::text::plus;
use vstd::prelude::*;
use vstd::string::*;

verus! {

/// Outcome of a stage dispatch attempt.
#[derive(Debug)]
pub enum DispatchOutcome {
    /// Stage completed; contains the next stage (if any).
    Completed(Option<Stage>),
    /// Service is unreachable — job should be held pending for retry.
    ServiceUnavailable(String),
    /// Permanent failure — job should be marked Failed.
    Failed(String),
}

/// What a [`DispatchOutcome`] says.
pub enum OutcomeView {
    Completed(Option<Stage>),
    ServiceUnavailable(Seq<char>),
    Failed(Seq<char>),
}

impl View for DispatchOutcome {
    type V = OutcomeView;

    open spec fn view(&self) -> OutcomeView {
        match self {
            DispatchOutcome::Completed(next) => OutcomeView::Completed(*next),
            DispatchOutcome::ServiceUnavailable(reason) => OutcomeView::ServiceUnavailable(
                reason@,
            ),
            DispatchOutcome::Failed(reason) => OutcomeView::Failed(reason@),
        }
    }
}

impl DispatchOutcome {
    /// A second outcome that says the same.
    pub fn copy(&self) -> (r: DispatchOutcome)
        ensures
            r@ == self@,
    {
        match self {
            DispatchOutcome::Completed(next) => DispatchOutcome::Completed(*next),
            DispatchOutcome::ServiceUnavailable(reason) => DispatchOutcome::ServiceUnavailable(
                reason.clone(),
            ),
            DispatchOutcome::Failed(reason) => DispatchOutcome::Failed(reason.clone()),
        }
    }
}

/// The status line of a response.
#[derive(Debug, Clone)]
pub struct HttpStatus {
    pub code: u16,
    /// The code and the reason, such as "404 Not Found".
    pub text: String,
}

/// What an [`HttpStatus`] says.
pub struct HttpStatusView {
    pub code: u16,
    pub text: Seq<char>,
}

impl View for HttpStatus {
    type V = HttpStatusView;

    open spec fn view(&self) -> HttpStatusView {
        HttpStatusView { code: self.code, text: self.text@ }
    }
}

/// Why a request got no response.
#[derive(Debug, Clone)]
pub struct CallError {
    /// No connection could be made.
    pub connect: bool,
    /// The time was up.
    pub timeout: bool,
    pub error: String,
}

/// What a [`CallError`] says.
pub struct CallErrorView {
    pub connect: bool,
    pub timeout: bool,
    pub error: Seq<char>,
}

impl View for CallError {
    type V = CallErrorView;

    open spec fn view(&self) -> CallErrorView {
        CallErrorView { connect: self.connect, timeout: self.timeout, error: self.error@ }
    }
}

/// A result by the views of its sides.
pub open spec fn result_view<T: View, E: View>(r: Result<T, E>) -> Result<T::V, E::V> {
    match r {
        Ok(t) => Ok(t@),
        Err(e) => Err(e@),
    }
}

/// The reason of a failure, if there was one.
pub open spec fn fault(r: Result<(), String>) -> Option<Seq<char>> {
    match r {
        Ok(_) => None,
        Err(e) => Some(e@),
    }
}

/// Whether an error indicates that the service is down (connection refused, DNS
/// failure, connect timeout) rather than an application-level error.
pub open spec fn unavailable(e: CallErrorView) -> bool {
    e.connect || e.timeout
}

/// Returns true if an error indicates the service is down.
pub fn is_service_unavailable(err: &CallError) -> (r: bool)
    ensures
        r == unavailable(err@),
{
    err.connect || err.timeout
}

/// Whether a status code means success.
pub open spec fn success(code: u16) -> bool {
    200 <= code <= 299
}

/// What is wrong with a service, by its answer to a health probe.
pub open spec fn health_fault(reply: Result<HttpStatusView, Seq<char>>) -> Option<Seq<char>> {
    match reply {
        Ok(status) => if success(status.code) {
            None
        } else {
            Some("healthz returned "@ + status.text)
        },
        Err(e) => Some(e),
    }
}

/// Lightweight health probe: a service is up if it responds 2xx to
/// GET /healthz. Returns Ok(()), or an error message.
pub fn check_health(reply: &Result<HttpStatus, String>) -> (r: Result<(), String>)
    ensures
        fault(r) == health_fault(result_view(*reply)),
{
    match reply {
        Ok(status) => {
            if status.code >= 200 && status.code <= 299 {
                Ok(())
            } else {
                Err(plus("healthz returned ".to_string(), status.text.as_str()))
            }
        },
        Err(e) => Err(e.clone()),
    }
}

/// The stage that a queued text names: the text is read as a JSON string, and
/// the name of a stage is read as it is.
pub open spec fn parsed_stage(stage: Seq<char>) -> Option<Stage> {
    match stage_named(stage) {
        Some(s) => Some(s),
        None => match parsed_text("\""@ + stage + "\""@) {
            Some(JsonView::Text(name)) => stage_named(name),
            _ => None,
        },
    }
}

/// The stage that a queued text names.
pub fn parse_stage(stage: &str) -> (r: Option<Stage>)
    ensures
        r == parsed_stage(stage@),
{
    let text = plus(plus("\"".to_string(), stage), "\"");
    proof {
        reveal_strlit("\"");
        assert(unquoted(text@) =~= stage@);
        assert forall|s: Stage| #[trigger] s.name() == stage@ implies is_plain_string(text@)
            && stage_named(stage@) == Some(s) by {
            lemma_stage_names_are_plain(s);
            law_stages_are_found_by_name(s);
        }
        if stage_named(stage@) is Some {
            let s = choose|s: Stage| #[trigger] s.name() == stage@;
            assert(s.name() == stage@);
        }
    }
    match parse_json(text.as_str()) {
        Some(Json::Text(name)) => Stage::from_name(name.as_str()),
        _ => None,
    }
}

/// How far a dispatch has come.
#[derive(Debug)]
pub enum Phase {
    /// The service is asked whether it is up.
    Probing { url: String },
    /// The job is marked as running.
    Marking,
    /// The job is read.
    Loading,
    /// The outputs of earlier stages are read.
    Collecting { job: PipelineJob },
    /// The service is called.
    Calling { endpoint: String, body: Json },
    /// The service has refused, and its words are read.
    Refused { reply: String },
    /// The service has accepted, and its answer is read.
    Answered,
    /// The answer is saved.
    Saving { output: Json },
    /// The job moves on.
    Closing { status: JobStatus, stage: Stage },
    Finished(DispatchOutcome),
}

/// What a [`Phase`] says.
pub enum PhaseView {
    Probing { url: Seq<char> },
    Marking,
    Loading,
    Collecting { job: JobView },
    Calling { endpoint: Seq<char>, body: JsonView },
    Refused { reply: Seq<char> },
    Answered,
    Saving { output: JsonView },
    Closing { status: JobStatus, stage: Stage },
    Finished(OutcomeView),
}

impl View for Phase {
    type V = PhaseView;

    open spec fn view(&self) -> PhaseView {
        match self {
            Phase::Probing { url } => PhaseView::Probing { url: url@ },
            Phase::Marking => PhaseView::Marking,
            Phase::Loading => PhaseView::Loading,
            Phase::Collecting { job } => PhaseView::Collecting { job: job@ },
            Phase::Calling { endpoint, body } => PhaseView::Calling {
                endpoint: endpoint@,
                body: body@,
            },
            Phase::Refused { reply } => PhaseView::Refused { reply: reply@ },
            Phase::Answered => PhaseView::Answered,
            Phase::Saving { output } => PhaseView::Saving { output: output@ },
            Phase::Closing { status, stage } => PhaseView::Closing {
                status: *status,
                stage: *stage,
            },
            Phase::Finished(outcome) => PhaseView::Finished(outcome@),
        }
    }
}

/// What is to be done next.
#[derive(Debug)]
pub enum Action {
    /// GET the URL with a short timeout; answer with [`Event::Probed`].
    Probe(String),
    /// Set where the job stands; answer with [`Event::StatusSet`].
    SetStatus(JobStatus, Stage),
    /// Read the job; answer with [`Event::JobLoaded`].
    LoadJob,
    /// Read what the stages of the job have answered; answer with
    /// [`Event::OutputsLoaded`].
    LoadOutputs,
    /// POST the body; answer with [`Event::Called`].
    Call { endpoint: String, body: Json },
    /// Read the response as text; answer with [`Event::TextRead`].
    ReadText,
    /// Read the response as JSON; answer with [`Event::BodyRead`].
    ReadBody,
    /// Save what the stage has answered; answer with [`Event::OutputSaved`].
    SaveOutput(Json),
    /// Nothing: this is the outcome.
    Finish(DispatchOutcome),
}

/// What an [`Action`] says.
pub enum ActionView {
    Probe(Seq<char>),
    SetStatus(JobStatus, Stage),
    LoadJob,
    LoadOutputs,
    Call { endpoint: Seq<char>, body: JsonView },
    ReadText,
    ReadBody,
    SaveOutput(JsonView),
    Finish(OutcomeView),
}

impl View for Action {
    type V = ActionView;

    open spec fn view(&self) -> ActionView {
        match self {
            Action::Probe(url) => ActionView::Probe(url@),
            Action::SetStatus(status, stage) => ActionView::SetStatus(*status, *stage),
            Action::LoadJob => ActionView::LoadJob,
            Action::LoadOutputs => ActionView::LoadOutputs,
            Action::Call { endpoint, body } => ActionView::Call {
                endpoint: endpoint@,
                body: body@,
            },
            Action::ReadText => ActionView::ReadText,
            Action::ReadBody => ActionView::ReadBody,
            Action::SaveOutput(output) => ActionView::SaveOutput(output@),
            Action::Finish(outcome) => ActionView::Finish(outcome@),
        }
    }
}

/// What came of an [`Action`].
#[derive(Debug)]
pub enum Event {
    Probed(Result<HttpStatus, String>),
    StatusSet(Result<(), String>),
    JobLoaded(Result<Option<PipelineJob>, String>),
    OutputsLoaded(Vec<(String, Json)>),
    Called(Result<HttpStatus, CallError>),
    TextRead(String),
    BodyRead(Result<Json, String>),
    OutputSaved(Result<(), String>),
}

/// What an [`Event`] says.
pub enum EventView {
    Probed(Result<HttpStatusView, Seq<char>>),
    StatusSet(Option<Seq<char>>),
    JobLoaded(Result<Option<JobView>, Seq<char>>),
    OutputsLoaded(Map<Seq<char>, JsonView>),
    Called(Result<HttpStatusView, CallErrorView>),
    TextRead(Seq<char>),
    BodyRead(Result<JsonView, Seq<char>>),
    OutputSaved(Option<Seq<char>>),
}

impl View for Event {
    type V = EventView;

    open spec fn view(&self) -> EventView {
        match self {
            Event::Probed(reply) => EventView::Probed(result_view(*reply)),
            Event::StatusSet(r) => EventView::StatusSet(fault(*r)),
            Event::JobLoaded(r) => EventView::JobLoaded(
                match *r {
                    Ok(Some(job)) => Ok(Some(job@)),
                    Ok(None) => Ok(None),
                    Err(e) => Err(e@),
                },
            ),
            Event::OutputsLoaded(prior) => EventView::OutputsLoaded(members_view(prior@)),
            Event::Called(reply) => EventView::Called(result_view(*reply)),
            Event::TextRead(text) => EventView::TextRead(text@),
            Event::BodyRead(r) => EventView::BodyRead(result_view(*r)),
            Event::OutputSaved(r) => EventView::OutputSaved(fault(*r)),
        }
    }
}

/// A stage of a job on its way through its service.
#[derive(Debug)]
pub struct Dispatch {
    pub job_id: String,
    /// The stage as it was queued.
    pub stage: String,
    /// The stage that this names.
    pub current: Stage,
    /// Where the service takes requests, if that is known.
    pub endpoint: Option<String>,
    pub phase: Phase,
}

/// What a [`Dispatch`] says.
pub struct DispatchView {
    pub job_id: Seq<char>,
    pub stage: Seq<char>,
    pub current: Stage,
    pub endpoint: Option<Seq<char>>,
    pub phase: PhaseView,
}

impl View for Dispatch {
    type V = DispatchView;

    open spec fn view(&self) -> DispatchView {
        DispatchView {
            job_id: self.job_id@,
            stage: self.stage@,
            current: self.current,
            endpoint: text_view(self.endpoint),
            phase: self.phase@,
        }
    }
}

/// Where a job stands once a stage is done. A terminal stage leaves it there.
pub open spec fn closing(current: Stage) -> Option<(JobStatus, Stage)> {
    match current.next() {
        Some(next) => if next == Stage::Complete {
            Some((JobStatus::Completed, Stage::Complete))
        } else {
            Some((JobStatus::Running, next))
        },
        None => None,
    }
}

/// The stage to queue next: terminal stages are not queued.
pub open spec fn next_queued(current: Stage) -> Option<Stage> {
    match current.next() {
        Some(next) => if next.terminal() {
            None
        } else {
            Some(next)
        },
        None => None,
    }
}

pub open spec fn failed(reason: Seq<char>) -> PhaseView {
    PhaseView::Finished(OutcomeView::Failed(reason))
}

/// How far a dispatch is after the call of the service.
pub open spec fn call_phase(
    stage: Seq<char>,
    endpoint: Seq<char>,
    reply: Result<HttpStatusView, CallErrorView>,
) -> PhaseView {
    match reply {
        Ok(status) => if success(status.code) {
            PhaseView::Answered
        } else {
            PhaseView::Refused { reply: status.text }
        },
        Err(e) => if unavailable(e) {
            PhaseView::Finished(
                OutcomeView::ServiceUnavailable(
                    "service "@ + stage + " at "@ + endpoint + " unreachable: "@ + e.error,
                ),
            )
        } else {
            failed("HTTP error calling "@ + stage + ": "@ + e.error)
        },
    }
}

/// How a dispatch starts. A text that names no stage fails at once, with what
/// the JSON reader says against it.
pub open spec fn begun(
    urls: Map<Seq<char>, Seq<char>>,
    job_id: Seq<char>,
    stage: Seq<char>,
    parse_error: Seq<char>,
) -> Result<DispatchView, OutcomeView> {
    match parsed_stage(stage) {
        Some(current) => Ok(
            DispatchView {
                job_id,
                stage,
                current,
                endpoint: endpoint(urls, stage),
                phase: match health_url(urls, stage) {
                    Some(url) => PhaseView::Probing { url },
                    None => PhaseView::Marking,
                },
            },
        ),
        None => Err(OutcomeView::Failed("invalid stage '"@ + stage + "': "@ + parse_error)),
    }
}

impl DispatchView {
    /// What is to be done next.
    pub open spec fn action(self) -> ActionView {
        match self.phase {
            PhaseView::Probing { url } => ActionView::Probe(url),
            PhaseView::Marking => ActionView::SetStatus(JobStatus::Running, self.current),
            PhaseView::Loading => ActionView::LoadJob,
            PhaseView::Collecting { .. } => ActionView::LoadOutputs,
            PhaseView::Calling { endpoint, body } => ActionView::Call { endpoint, body },
            PhaseView::Refused { .. } => ActionView::ReadText,
            PhaseView::Answered => ActionView::ReadBody,
            PhaseView::Saving { output } => ActionView::SaveOutput(output),
            PhaseView::Closing { status, stage } => ActionView::SetStatus(status, stage),
            PhaseView::Finished(outcome) => ActionView::Finish(outcome),
        }
    }

    /// How far the dispatch is after an event. One that is no answer to the
    /// action changes nothing.
    pub open spec fn next_phase(self, event: EventView) -> PhaseView {
        match (self.phase, event) {
            (PhaseView::Probing { .. }, EventView::Probed(reply)) => match health_fault(reply) {
                None => PhaseView::Marking,
                Some(reason) => PhaseView::Finished(
                    OutcomeView::ServiceUnavailable(
                        "service "@ + self.stage + " failed health check: "@ + reason,
                    ),
                ),
            },
            (PhaseView::Marking, EventView::StatusSet(fault)) => match (fault, self.endpoint) {
                (Some(e), _) => failed("failed to update job status: "@ + e),
                (None, Some(_)) => PhaseView::Loading,
                (None, None) => failed("no endpoint for stage '"@ + self.stage + "'"@),
            },
            (PhaseView::Loading, EventView::JobLoaded(r)) => match r {
                Ok(Some(job)) => PhaseView::Collecting { job },
                Ok(None) => failed("job '"@ + self.job_id + "' not found"@),
                Err(e) => failed("store error: "@ + e),
            },
            (PhaseView::Collecting { job }, EventView::OutputsLoaded(prior)) => match (
                stage_body(self.stage, job, prior),
                self.endpoint,
            ) {
                (Some(body), Some(endpoint)) => PhaseView::Calling { endpoint, body },
                (Some(body), None) => failed("no endpoint for stage '"@ + self.stage + "'"@),
                (None, _) => failed(
                    "request build error: "@ + ("unsupported stage: "@ + self.stage),
                ),
            },
            (PhaseView::Calling { endpoint, .. }, EventView::Called(reply)) => call_phase(
                self.stage,
                endpoint,
                reply,
            ),
            (PhaseView::Refused { reply }, EventView::TextRead(text)) => failed(
                "service "@ + self.stage + " returned "@ + reply + ": "@ + text,
            ),
            (PhaseView::Answered, EventView::BodyRead(r)) => match r {
                Ok(output) => PhaseView::Saving { output },
                Err(e) => failed("failed to parse response from "@ + self.stage + ": "@ + e),
            },
            (PhaseView::Saving { .. }, EventView::OutputSaved(_)) => match closing(self.current) {
                Some((status, stage)) => PhaseView::Closing { status, stage },
                None => PhaseView::Finished(OutcomeView::Completed(None)),
            },
            (PhaseView::Closing { .. }, EventView::StatusSet(fault)) => match fault {
                Some(e) => failed("failed to update job status: "@ + e),
                None => PhaseView::Finished(OutcomeView::Completed(next_queued(self.current))),
            },
            (phase, _) => phase,
        }
    }

    /// The dispatch after an event.
    pub open spec fn step(self, event: EventView) -> DispatchView {
        DispatchView { phase: self.next_phase(event), ..self }
    }
}

impl Dispatch {
    /// Begin to dispatch a stage. `parse_error` is what the JSON reader says
    /// against a text that names no stage.
    pub fn begin(
        registry: &ServiceRegistry,
        job_id: &str,
        stage: &str,
        parse_error: &str,
    ) -> (r: Result<Dispatch, DispatchOutcome>)
        ensures
            result_view(r) == begun(registry@, job_id@, stage@, parse_error@),
    {
        let current = match parse_stage(stage) {
            Some(current) => current,
            None => {
                let text = plus(
                    plus(plus("invalid stage '".to_string(), stage), "': "),
                    parse_error,
                );
                return Err(DispatchOutcome::Failed(text));
            },
        };
        let phase = match registry.healthz_url(stage) {
            Some(url) => Phase::Probing { url },
            None => Phase::Marking,
        };
        let endpoint = registry.endpoint_for(stage);
        let d = Dispatch {
            job_id: job_id.to_string(),
            stage: stage.to_string(),
            current,
            endpoint,
            phase,
        };
        Ok(d)
    }

    /// What is to be done next.
    pub fn action(&self) -> (r: Action)
        ensures
            r@ == self@.action(),
    {
        match &self.phase {
            Phase::Probing { url } => Action::Probe(url.clone()),
            Phase::Marking => Action::SetStatus(JobStatus::Running, self.current),
            Phase::Loading => Action::LoadJob,
            Phase::Collecting { .. } => Action::LoadOutputs,
            Phase::Calling { endpoint, body } => Action::Call {
                endpoint: endpoint.clone(),
                body: body.copy(),
            },
            Phase::Refused { .. } => Action::ReadText,
            Phase::Answered => Action::ReadBody,
            Phase::Saving { output } => Action::SaveOutput(output.copy()),
            Phase::Closing { status, stage } => Action::SetStatus(*status, *stage),
            Phase::Finished(outcome) => Action::Finish(outcome.copy()),
        }
    }

    fn no_endpoint(stage: &str) -> (r: Phase)
        ensures
            r@ == failed("no endpoint for stage '"@ + stage@ + "'"@),
    {
        Phase::Finished(
            DispatchOutcome::Failed(plus(plus("no endpoint for stage '".to_string(), stage), "'")),
        )
    }

    fn status_failure(e: &str) -> (r: Phase)
        ensures
            r@ == failed("failed to update job status: "@ + e@),
    {
        Phase::Finished(
            DispatchOutcome::Failed(plus("failed to update job status: ".to_string(), e)),
        )
    }

    fn probed(stage: &str, reply: &Result<HttpStatus, String>) -> (r: Phase)
        ensures
            r@ == match health_fault(result_view(*reply)) {
                None => PhaseView::Marking,
                Some(reason) => PhaseView::Finished(
                    OutcomeView::ServiceUnavailable(
                        "service "@ + stage@ + " failed health check: "@ + reason,
                    ),
                ),
            },
    {
        match check_health(reply) {
            Ok(_) => Phase::Marking,
            Err(reason) => {
                let text = plus(
                    plus(plus("service ".to_string(), stage), " failed health check: "),
                    reason.as_str(),
                );
                Phase::Finished(DispatchOutcome::ServiceUnavailable(text))
            },
        }
    }

    fn called(stage: &str, endpoint: &str, reply: Result<HttpStatus, CallError>) -> (r: Phase)
        ensures
            r@ == call_phase(stage@, endpoint@, result_view(reply)),
    {
        match reply {
            Ok(status) => {
                if status.code >= 200 && status.code <= 299 {
                    Phase::Answered
                } else {
                    Phase::Refused { reply: status.text }
                }
            },
            Err(e) => {
                if is_service_unavailable(&e) {
                    let text = plus(
                        plus(
                            plus(
                                plus(plus("service ".to_string(), stage), " at "),
                                endpoint,
                            ),
                            " unreachable: ",
                        ),
                        e.error.as_str(),
                    );
                    Phase::Finished(DispatchOutcome::ServiceUnavailable(text))
                } else {
                    let text = plus(
                        plus(plus("HTTP error calling ".to_string(), stage), ": "),
                        e.error.as_str(),
                    );
                    Phase::Finished(DispatchOutcome::Failed(text))
                }
            },
        }
    }

    /// Take in what came of the action. An event that is no answer to it
    /// changes nothing.
    pub fn step(self, event: Event) -> (r: Dispatch)
        ensures
            r@ == self@.step(event@),
    {
        let Dispatch { job_id, stage, current, endpoint, phase } = self;
        let next = match (phase, event) {
            (Phase::Probing { .. }, Event::Probed(reply)) => {
                Dispatch::probed(stage.as_str(), &reply)
            },
            (Phase::Marking, Event::StatusSet(r)) => match r {
                Err(e) => Dispatch::status_failure(e.as_str()),
                Ok(_) => match &endpoint {
                    Some(_) => Phase::Loading,
                    None => Dispatch::no_endpoint(stage.as_str()),
                },
            },
            (Phase::Loading, Event::JobLoaded(r)) => match r {
                Ok(Some(job)) => Phase::Collecting { job },
                Ok(None) => {
                    let text = plus(plus("job '".to_string(), job_id.as_str()), "' not found");
                    Phase::Finished(DispatchOutcome::Failed(text))
                },
                Err(e) => {
                    let text = plus("store error: ".to_string(), e.as_str());
                    Phase::Finished(DispatchOutcome::Failed(text))
                },
            },
            (Phase::Collecting { job }, Event::OutputsLoaded(prior)) => {
                match build_stage_request(stage.as_str(), &job, &prior) {
                    Ok(body) => match &endpoint {
                        Some(endpoint) => Phase::Calling { endpoint: endpoint.clone(), body },
                        None => Dispatch::no_endpoint(stage.as_str()),
                    },
                    Err(e) => {
                        let text = plus("request build error: ".to_string(), e.as_str());
                        Phase::Finished(DispatchOutcome::Failed(text))
                    },
                }
            },
            (Phase::Calling { endpoint: url, .. }, Event::Called(reply)) => {
                Dispatch::called(stage.as_str(), url.as_str(), reply)
            },
            (Phase::Refused { reply }, Event::TextRead(words)) => {
                let text = plus(
                    plus(
                        plus(
                            plus(plus("service ".to_string(), stage.as_str()), " returned "),
                            reply.as_str(),
                        ),
                        ": ",
                    ),
                    words.as_str(),
                );
                Phase::Finished(DispatchOutcome::Failed(text))
            },
            (Phase::Answered, Event::BodyRead(r)) => match r {
                Ok(output) => Phase::Saving { output },
                Err(e) => {
                    let text = plus(
                        plus(
                            plus("failed to parse response from ".to_string(), stage.as_str()),
                            ": ",
                        ),
                        e.as_str(),
                    );
                    Phase::Finished(DispatchOutcome::Failed(text))
                },
            },
            (Phase::Saving { .. }, Event::OutputSaved(_)) => match current.next_mvp() {
                Some(Stage::Complete) => Phase::Closing {
                    status: JobStatus::Completed,
                    stage: Stage::Complete,
                },
                Some(next) => Phase::Closing { status: JobStatus::Running, stage: next },
                None => Phase::Finished(DispatchOutcome::Completed(None)),
            },
            (Phase::Closing { .. }, Event::StatusSet(r)) => match r {
                Err(e) => Dispatch::status_failure(e.as_str()),
                Ok(_) => match current.next_mvp() {
                    Some(Stage::Complete) | Some(Stage::Failed) => {
                        Phase::Finished(DispatchOutcome::Completed(None))
                    },
                    next => Phase::Finished(DispatchOutcome::Completed(next)),
                },
            },
            (phase, _) => phase,
        };
        Dispatch { job_id, stage, current, endpoint, phase: next }
    }
}

/// What a service answers in the course of a dispatch.
#[derive(Debug)]
pub struct Replies {
    /// To the health probe.
    pub health: Result<HttpStatus, String>,
    /// To the call.
    pub call: Result<HttpStatus, CallError>,
    /// The response as text.
    pub text: String,
    /// The response as JSON.
    pub body: Result<Json, String>,
}

/// What [`Replies`] say.
pub struct RepliesView {
    pub health: Result<HttpStatusView, Seq<char>>,
    pub call: Result<HttpStatusView, CallErrorView>,
    pub text: Seq<char>,
    pub body: Result<JsonView, Seq<char>>,
}

impl View for Replies {
    type V = RepliesView;

    open spec fn view(&self) -> RepliesView {
        RepliesView {
            health: result_view(self.health),
            call: result_view(self.call),
            text: self.text@,
            body: result_view(self.body),
        }
    }
}

/// What carrying out the next action does to the store, and what comes of it.
pub open spec fn carried_out(d: DispatchView, store: StoreView, replies: RepliesView) -> (
    StoreView,
    EventView,
) {
    match d.action() {
        ActionView::Probe(_) => (store, EventView::Probed(replies.health)),
        ActionView::SetStatus(status, stage) => (
            store.with_status(d.job_id, status, stage),
            EventView::StatusSet(None),
        ),
        ActionView::LoadJob => (store, EventView::JobLoaded(Ok(store.job(d.job_id)))),
        ActionView::LoadOutputs => (
            store,
            EventView::OutputsLoaded(outputs_by_stage(store.outputs_of(d.job_id))),
        ),
        ActionView::Call { .. } => (store, EventView::Called(replies.call)),
        ActionView::ReadText => (store, EventView::TextRead(replies.text)),
        ActionView::ReadBody => (store, EventView::BodyRead(replies.body)),
        ActionView::SaveOutput(output) => (
            store.with_output(d.job_id, d.stage, output),
            EventView::OutputSaved(None),
        ),
        ActionView::Finish(_) => (store, EventView::StatusSet(None)),
    }
}

/// How many steps at most a dispatch is away from its outcome.
pub open spec fn steps_left(phase: PhaseView) -> nat {
    match phase {
        PhaseView::Probing { .. } => 8,
        PhaseView::Marking => 7,
        PhaseView::Loading => 6,
        PhaseView::Collecting { .. } => 5,
        PhaseView::Calling { .. } => 4,
        PhaseView::Refused { .. } => 1,
        PhaseView::Answered => 3,
        PhaseView::Saving { .. } => 2,
        PhaseView::Closing { .. } => 1,
        PhaseView::Finished(_) => 0,
    }
}

/// What a dispatch comes to, and what it does to the store, where the service
/// answers in that way.
pub open spec fn run(d: DispatchView, store: StoreView, replies: RepliesView) -> (
    StoreView,
    OutcomeView,
)
    decreases steps_left(d.phase),
{
    match d.phase {
        PhaseView::Finished(outcome) => (store, outcome),
        _ => {
            let (after, event) = carried_out(d, store, replies);
            run(d.step(event), after, replies)
        },
    }
}

/// What the dispatch of a queued stage comes to, and what it does to the store.
pub open spec fn dispatched(
    urls: Map<Seq<char>, Seq<char>>,
    store: StoreView,
    job_id: Seq<char>,
    stage: Seq<char>,
    parse_error: Seq<char>,
    replies: RepliesView,
) -> (StoreView, OutcomeView) {
    match begun(urls, job_id, stage, parse_error) {
        Ok(d) => run(d, store, replies),
        Err(outcome) => (store, outcome),
    }
}

fn copy_status(r: &HttpStatus) -> (c: HttpStatus)
    ensures
        c@ == r@,
{
    HttpStatus { code: r.code, text: r.text.clone() }
}

/// Dispatch a single stage on a store at hand: call the service, which answers
/// as given, update the job's status, and return the outcome.
pub fn dispatch_stage(
    registry: &ServiceRegistry,
    store: &mut ArtifactStore,
    job_id: &str,
    stage: &str,
    parse_error: &str,
    replies: &Replies,
) -> (r: DispatchOutcome)
    requires
        old(store).wf(),
    ensures
        final(store).wf(),
        (final(store)@, r@) == dispatched(
            registry@,
            old(store)@,
            job_id@,
            stage@,
            parse_error@,
            replies@,
        ),
{
    let mut d = match Dispatch::begin(registry, job_id, stage, parse_error) {
        Ok(d) => d,
        Err(outcome) => {
            return outcome;
        },
    };
    let ghost goal = run(d@, store@, replies@);
    loop
        invariant
            store.wf(),
            goal == run(d@, store@, replies@),
            goal == dispatched(
                registry@,
                old(store)@,
                job_id@,
                stage@,
                parse_error@,
                replies@,
            ),
        decreases steps_left(d@.phase),
    {
        let event = match d.action() {
            Action::Finish(outcome) => {
                return outcome;
            },
            Action::Probe(_) => Event::Probed(
                match &replies.health {
                    Ok(status) => Ok(copy_status(status)),
                    Err(e) => Err(e.clone()),
                },
            ),
            Action::SetStatus(status, stage) => {
                store.update_job_status(d.job_id.as_str(), &status, &stage);
                Event::StatusSet(Ok(()))
            },
            Action::LoadJob => Event::JobLoaded(Ok(store.get_job(d.job_id.as_str()))),
            Action::LoadOutputs => {
                let outputs = store.list_stage_outputs(d.job_id.as_str());
                Event::OutputsLoaded(by_stage(&outputs))
            },
            Action::Call { .. } => Event::Called(
                match &replies.call {
                    Ok(status) => Ok(copy_status(status)),
                    Err(e) => Err(
                        CallError {
                            connect: e.connect,
                            timeout: e.timeout,
                            error: e.error.clone(),
                        },
                    ),
                },
            ),
            Action::ReadText => Event::TextRead(replies.text.clone()),
            Action::ReadBody => Event::BodyRead(
                match &replies.body {
                    Ok(body) => Ok(body.copy()),
                    Err(e) => Err(e.clone()),
                },
            ),
            Action::SaveOutput(output) => {
                store.save_stage_output(d.job_id.as_str(), d.stage.as_str(), &output);
                Event::OutputSaved(Ok(()))
            },
        };
        d = d.step(event);
    }
}

// ---------------------------------------------------------------------------
// Laws
// ---------------------------------------------------------------------------

/// An answer to the action that is asked for always brings a dispatch closer to
/// its outcome, so a dispatch ends after at most eight steps.
pub proof fn law_dispatch_ends(d: DispatchView, store: StoreView, replies: RepliesView)
    requires
        !(d.phase is Finished),
    ensures
        steps_left(d.step(carried_out(d, store, replies).1).phase) < steps_left(d.phase),
        steps_left(d.phase) <= 8,
{
}

/// Once there is an outcome, nothing changes it.
pub proof fn law_outcomes_are_final(d: DispatchView, event: EventView)
    requires
        d.phase is Finished,
    ensures
        d.step(event) == d,
{
}

/// A service that is down is noticed before any work is done: the store stays
/// as it is, and the job is to be retried.
pub proof fn law_down_services_change_nothing(
    urls: Map<Seq<char>, Seq<char>>,
    store: StoreView,
    job_id: Seq<char>,
    stage: Seq<char>,
    parse_error: Seq<char>,
    replies: RepliesView,
)
    requires
        parsed_stage(stage) is Some,
        health_url(urls, stage) is Some,
        health_fault(replies.health) is Some,
    ensures
        dispatched(urls, store, job_id, stage, parse_error, replies) == (
            store,
            OutcomeView::ServiceUnavailable(
                "service "@ + stage + " failed health check: "@ + health_fault(
                    replies.health,
                )->0,
            ),
        ),
{
    reveal_with_fuel(run, 2);
}

/// A stage whose service is up and answers is completed: its answer is saved,
/// the job moves to the next stage of the pipeline, and that stage is handed
/// back to be queued unless it is the end.
pub proof fn law_answered_stages_complete(
    urls: Map<Seq<char>, Seq<char>>,
    store: StoreView,
    job_id: Seq<char>,
    stage: Seq<char>,
    parse_error: Seq<char>,
    replies: RepliesView,
    current: Stage,
    output: JsonView,
)
    requires
        store.wf(),
        parsed_stage(stage) == Some(current),
        !current.terminal(),
        urls.contains_key(stage),
        health_fault(replies.health) is None,
        store.job(job_id) is Some,
        stage_body(
            stage,
            store.with_status(job_id, JobStatus::Running, current).job(job_id)->0,
            outputs_by_stage(store.outputs_of(job_id)),
        ) is Some,
        replies.call matches Ok(status) && success(status.code),
        replies.body == Ok::<JsonView, Seq<char>>(output),
    ensures
        ({
            let (after, outcome) = dispatched(urls, store, job_id, stage, parse_error, replies);
            let next = current.next()->0;
            &&& outcome == OutcomeView::Completed(next_queued(current))
            &&& after.output(job_id, stage) == Some(output)
            &&& after.job(job_id) == Some(
                JobView {
                    status: if next == Stage::Complete {
                        JobStatus::Completed
                    } else {
                        JobStatus::Running
                    },
                    current_stage: next,
                    ..store.job(job_id)->0
                },
            )
        }),
{
    let marked = store.with_status(job_id, JobStatus::Running, current);
    let saved = marked.with_output(job_id, stage, output);
    let (status, next) = closing(current)->0;
    let d = begun(urls, job_id, stage, parse_error)->Ok_0;
    law_only_terminal_stages_end(current);
    law_status_updates_touch_one_job(store, job_id, JobStatus::Running, current, job_id);
    lemma_status_keeps_wf(store, job_id, JobStatus::Running, current);
    law_saved_outputs_are_read_back(marked, job_id, stage, output, job_id, stage);
    lemma_output_keeps_wf(marked, job_id, stage, output);
    assert(saved.jobs == marked.jobs);
    law_status_updates_touch_one_job(saved, job_id, status, next, job_id);
    assert(marked.outputs_of(job_id) == store.outputs_of(job_id));
    reveal_with_fuel(run, 10);
}

proof fn lemma_status_keeps_wf(v: StoreView, job_id: Seq<char>, status: JobStatus, stage: Stage)
    requires
        v.wf(),
    ensures
        v.with_status(job_id, status, stage).wf(),
{
    lemma_job_place(v.jobs, job_id, 0);
}

proof fn lemma_output_keeps_wf(
    v: StoreView,
    job_id: Seq<char>,
    stage: Seq<char>,
    output: JsonView,
)
    requires
        v.wf(),
    ensures
        v.with_output(job_id, stage, output).wf(),
{
    lemma_output_place(v.outputs, job_id, stage, 0);
}

/// A stage that is handed back to be queued is one of the minimal pipeline, and
/// comes right behind the one that was dispatched.
pub proof fn law_completed_stages_lead_on(d: DispatchView, store: StoreView, replies: RepliesView)
    requires
        !(d.phase is Finished),
    ensures
        run(d, store, replies).1 matches OutcomeView::Completed(Some(next)) ==> {
            &&& mvp_stages().contains(next)
            &&& d.current.next() == Some(next)
        },
    decreases steps_left(d.phase),
{
    law_successors_are_minimal(d.current);
    let (after, event) = carried_out(d, store, replies);
    let e = d.step(event);
    if e.phase is Finished {
        reveal_with_fuel(run, 2);
    } else {
        law_completed_stages_lead_on(e, after, replies);
    }
}

/// A dispatch leaves the answers of all other stages alone.
pub proof fn law_dispatch_keeps_other_outputs(
    d: DispatchView,
    store: StoreView,
    replies: RepliesView,
    job_id: Seq<char>,
    stage: Seq<char>,
)
    requires
        store.wf(),
        job_id != d.job_id || stage != d.stage,
    ensures
        run(d, store, replies).0.output(job_id, stage) == store.output(job_id, stage),
    decreases steps_left(d.phase),
{
    if !(d.phase is Finished) {
        let (after, event) = carried_out(d, store, replies);
        match d.action() {
            ActionView::SetStatus(status, to) => {
                law_status_updates_touch_one_job(store, d.job_id, status, to, d.job_id);
                lemma_status_keeps_wf(store, d.job_id, status, to);
            },
            ActionView::SaveOutput(output) => {
                law_saved_outputs_are_read_back(
                    store,
                    d.job_id,
                    d.stage,
                    output,
                    job_id,
                    stage,
                );
                lemma_output_keeps_wf(store, d.job_id, d.stage, output);
            },
            _ => {},
        }
        law_dispatch_keeps_other_outputs(d.step(event), after, replies, job_id, stage);
    }
}

/// A dispatch leaves all other jobs alone, and never touches the event log.
pub proof fn law_dispatch_touches_one_job(
    d: DispatchView,
    store: StoreView,
    replies: RepliesView,
    other: Seq<char>,
    stage: Seq<char>,
)
    requires
        store.wf(),
        other != d.job_id,
    ensures
        run(d, store, replies).0.wf(),
        run(d, store, replies).0.job(other) == store.job(other),
        run(d, store, replies).0.output(other, stage) == store.output(other, stage),
        run(d, store, replies).0.events == store.events,
    decreases steps_left(d.phase),
{
    if !(d.phase is Finished) {
        let (after, event) = carried_out(d, store, replies);
        match d.action() {
            ActionView::SetStatus(status, to) => {
                law_status_updates_touch_one_job(store, d.job_id, status, to, other);
                lemma_status_keeps_wf(store, d.job_id, status, to);
            },
            ActionView::SaveOutput(output) => {
                law_saved_outputs_are_read_back(
                    store,
                    d.job_id,
                    d.stage,
                    output,
                    other,
                    stage,
                );
                lemma_output_keeps_wf(store, d.job_id, d.stage, output);
                assert(after.jobs == store.jobs);
            },
            _ => {},
        }
        law_dispatch_touches_one_job(d.step(event), after, replies, other, stage);
    }
}

/// What counts of a [`HttpStatus`] is what it holds, field by field.
pub proof fn law_statuses_are_what_they_hold(status: HttpStatus)
    ensures
        status@.code == status.code,
        status@.text == status.text@,
{
}

/// What counts of a [`CallError`] is what it holds, field by field.
pub proof fn law_call_errors_are_what_they_hold(error: CallError)
    ensures
        error@.connect == error.connect,
        error@.timeout == error.timeout,
        error@.error == error.error@,
{
}

/// What counts of a [`Replies`] is what it holds, field by field.
pub proof fn law_replies_are_what_they_hold(replies: Replies)
    ensures
        replies.health matches Ok(v) ==> replies@.health is Ok && replies@.health->Ok_0 == v@,
        replies.health matches Err(e) ==> replies@.health is Err && replies@.health->Err_0 == e@,
        replies.call matches Ok(v) ==> replies@.call is Ok && replies@.call->Ok_0 == v@,
        replies.call matches Err(e) ==> replies@.call is Err && replies@.call->Err_0 == e@,
        replies@.text == replies.text@,
        replies.body matches Ok(v) ==> replies@.body is Ok && replies@.body->Ok_0 == v@,
        replies.body matches Err(e) ==> replies@.body is Err && replies@.body->Err_0 == e@,
{
}

/// A service is up exactly where it answers with a code from 200 to 299, and
/// what is wrong with it is otherwise its status line or the error of the call.
pub proof fn law_health(status: HttpStatusView, error: Seq<char>)
    ensures
        200 <= status.code < 300 ==> health_fault(Ok(status)) is None,
        !(200 <= status.code < 300) ==> health_fault(Ok(status)) == Some(
            "healthz returned "@ + status.text,
        ),
        health_fault(Err(error)) == Some(error),
        200 <= status.code < 300 <==> success(status.code),
{
}

/// The service is taken to be down where no connection was made or the time was
/// up, and not for any other error.
pub proof fn law_unavailable(e: CallErrorView)
    ensures
        unavailable(e) <==> e.connect || e.timeout,
{
}

/// The name of a stage is read as that stage, and a text that is neither the
/// name of a stage nor a JSON string of one names none.
pub proof fn law_queued_names_are_read(stage: Stage, text: Seq<char>)
    ensures
        parsed_stage(stage.name()) == Some(stage),
        parsed_stage(text) == Some(stage) ==> text == stage.name() || parsed_text(
            "\""@ + text + "\""@,
        ) == Some(JsonView::Text(stage.name())),
        (forall|s: Stage| #[trigger] s.name() != text) && !(parsed_text("\""@ + text + "\""@)
            is Some && parsed_text("\""@ + text + "\""@)->0 is Text) ==> parsed_stage(text) is None,
{
    law_stages_are_found_by_name(stage);
    if parsed_stage(text) == Some(stage) {
        if stage_named(text) is None {
            let name = parsed_text("\""@ + text + "\""@)->0->Text_0;
            assert(stage_named(name) == Some(stage));
            let s = choose|s: Stage| #[trigger] s.name() == name;
            assert(s.name() == name);
        } else {
            let s = choose|s: Stage| #[trigger] s.name() == text;
            assert(s.name() == text);
        }
    }
}

/// A finished stage hands the job to the next stage of the pipeline, which is
/// queued; the last one ends it, and nothing is queued.
pub proof fn law_finished_stages_hand_on(current: Stage, next: Stage)
    requires
        ({
            ||| current == Stage::Planning && next == Stage::Research
            ||| current == Stage::Research && next == Stage::Script
            ||| current == Stage::Script && next == Stage::Tts
            ||| current == Stage::Storyboard && next == Stage::Tts
            ||| current == Stage::VisualGeneration && next == Stage::Tts
            ||| current == Stage::MusicGeneration && next == Stage::Tts
            ||| current == Stage::Tts && next == Stage::AsrValidation
            ||| current == Stage::AsrValidation && next == Stage::Captions
            ||| current == Stage::Captions && next == Stage::RenderFinal
            ||| current == Stage::RenderPreview && next == Stage::RenderFinal
            ||| current == Stage::QaPreview && next == Stage::RenderFinal
            ||| current == Stage::RenderFinal && next == Stage::QaFinal
            ||| current == Stage::QaFinal && next == Stage::Complete
        }),
    ensures
        current.next() == Some(next),
        current == Stage::QaFinal ==> closing(current) == Some(
            (JobStatus::Completed, Stage::Complete),
        ) && next_queued(current) is None,
        current != Stage::QaFinal ==> closing(current) == Some((JobStatus::Running, next))
            && next_queued(current) == Some(next),
        closing(Stage::Complete) is None,
        closing(Stage::Failed) is None,
        next_queued(Stage::Complete) is None,
        next_queued(Stage::Failed) is None,
{
}

/// A dispatch starts with a question after the health of its service, where the
/// service is known, and otherwise with marking the job; a text that names no
/// stage fails at once.
pub proof fn law_dispatches_start_with_a_probe(
    urls: Map<Seq<char>, Seq<char>>,
    job_id: Seq<char>,
    stage: Seq<char>,
    parse_error: Seq<char>,
)
    ensures
        ({
            let b = begun(urls, job_id, stage, parse_error);
            let d = b->Ok_0;
            &&& parsed_stage(stage) is None <==> b is Err
            &&& b is Err ==> b->Err_0 == OutcomeView::Failed(
                "invalid stage '"@ + stage + "': "@ + parse_error,
            )
            &&& b is Ok ==> d.job_id == job_id && d.stage == stage && Some(d.current)
                == parsed_stage(stage)
            &&& b is Ok && urls.contains_key(stage) ==> d.phase == (PhaseView::Probing {
                url: urls[stage] + "/healthz"@,
            }) && d.endpoint == endpoint(urls, stage) && d.endpoint is Some
            &&& b is Ok && !urls.contains_key(stage) ==> d.phase == PhaseView::Marking
                && d.endpoint is None
        }),
{
}

/// In each phase that is done which the phase is for, with what it holds.
pub proof fn law_phases_ask_for_their_action(d: DispatchView)
    ensures
        d.phase matches PhaseView::Probing { url } ==> d.action() == ActionView::Probe(url),
        d.phase == PhaseView::Marking ==> d.action() == ActionView::SetStatus(
            JobStatus::Running,
            d.current,
        ),
        d.phase == PhaseView::Loading ==> d.action() == ActionView::LoadJob,
        d.phase is Collecting ==> d.action() == ActionView::LoadOutputs,
        d.phase matches PhaseView::Calling { endpoint, body } ==> d.action() == (ActionView::Call {
            endpoint,
            body,
        }),
        d.phase is Refused ==> d.action() == ActionView::ReadText,
        d.phase == PhaseView::Answered ==> d.action() == ActionView::ReadBody,
        d.phase matches PhaseView::Saving { output } ==> d.action() == ActionView::SaveOutput(
            output,
        ),
        d.phase matches PhaseView::Closing { status, stage } ==> d.action()
            == ActionView::SetStatus(status, stage),
        d.phase matches PhaseView::Finished(outcome) ==> d.action() == ActionView::Finish(outcome),
{
}

/// Each fault on the way ends the dispatch with an outcome that names it, and
/// only a service that is down is reported as unavailable.
pub proof fn law_faults_are_named(
    d: DispatchView,
    e: Seq<char>,
    error: CallErrorView,
    status: HttpStatusView,
    prior: Map<Seq<char>, JsonView>,
)
    ensures
        d.phase is Probing ==> d.step(EventView::Probed(Err(e))).phase == PhaseView::Finished(
            OutcomeView::ServiceUnavailable("service "@ + d.stage + " failed health check: "@ + e),
        ),
        d.phase == PhaseView::Marking || d.phase is Closing ==> d.step(
            EventView::StatusSet(Some(e)),
        ).phase == PhaseView::Finished(OutcomeView::Failed("failed to update job status: "@ + e)),
        d.phase == PhaseView::Marking && d.endpoint is None ==> d.step(
            EventView::StatusSet(None),
        ).phase == PhaseView::Finished(
            OutcomeView::Failed("no endpoint for stage '"@ + d.stage + "'"@),
        ),
        d.phase == PhaseView::Loading ==> d.step(EventView::JobLoaded(Err(e))).phase
            == PhaseView::Finished(OutcomeView::Failed("store error: "@ + e)),
        d.phase == PhaseView::Loading ==> d.step(EventView::JobLoaded(Ok(None))).phase
            == PhaseView::Finished(OutcomeView::Failed("job '"@ + d.job_id + "' not found"@)),
        d.phase matches PhaseView::Collecting { job } && stage_body(d.stage, job, prior) is None
            ==> d.step(EventView::OutputsLoaded(prior)).phase == PhaseView::Finished(
            OutcomeView::Failed("request build error: unsupported stage: "@ + d.stage),
        ),
        d.phase is Calling && (error.connect || error.timeout) ==> d.step(
            EventView::Called(Err(error)),
        ).phase == PhaseView::Finished(
            OutcomeView::ServiceUnavailable(
                "service "@ + d.stage + " at "@ + d.phase->endpoint + " unreachable: "@ + error.error,
            ),
        ),
        d.phase is Calling && !error.connect && !error.timeout ==> d.step(
            EventView::Called(Err(error)),
        ).phase == PhaseView::Finished(
            OutcomeView::Failed("HTTP error calling "@ + d.stage + ": "@ + error.error),
        ),
        d.phase is Calling && !(200 <= status.code < 300) ==> d.step(
            EventView::Called(Ok(status)),
        ).phase == (PhaseView::Refused { reply: status.text }),
        d.phase matches PhaseView::Refused { reply } ==> d.step(EventView::TextRead(e)).phase
            == PhaseView::Finished(
            OutcomeView::Failed("service "@ + d.stage + " returned "@ + reply + ": "@ + e),
        ),
        d.phase == PhaseView::Answered ==> d.step(EventView::BodyRead(Err(e))).phase
            == PhaseView::Finished(
            OutcomeView::Failed("failed to parse response from "@ + d.stage + ": "@ + e),
        ),
{
    reveal_strlit("request build error: ");
    reveal_strlit("unsupported stage: ");
    reveal_strlit("request build error: unsupported stage: ");
    assert("request build error: "@ + ("unsupported stage: "@ + d.stage)
        =~= "request build error: unsupported stage: "@ + d.stage);
}

/// Where all goes well the job is marked and loaded, the service is called at
/// its endpoint with the body of the stage, its answer is saved as it is, and
/// the job moves on; the dispatch stays one of that job and stage throughout.
pub proof fn law_good_answers_lead_on(
    d: DispatchView,
    event: EventView,
    status: HttpStatusView,
    job: JobView,
    prior: Map<Seq<char>, JsonView>,
    output: JsonView,
    fault: Option<Seq<char>>,
)
    requires
        200 <= status.code < 300,
    ensures
        d.step(event).job_id == d.job_id,
        d.step(event).stage == d.stage,
        d.step(event).current == d.current,
        d.step(event).endpoint == d.endpoint,
        d.phase is Probing ==> d.step(EventView::Probed(Ok(status))).phase == PhaseView::Marking,
        d.phase == PhaseView::Marking && d.endpoint is Some ==> d.step(
            EventView::StatusSet(None),
        ).phase == PhaseView::Loading,
        d.phase == PhaseView::Loading ==> d.step(EventView::JobLoaded(Ok(Some(job)))).phase == (
        PhaseView::Collecting { job }),
        d.phase == (PhaseView::Collecting { job }) && d.endpoint is Some && stage_body(
            d.stage,
            job,
            prior,
        ) is Some ==> d.step(EventView::OutputsLoaded(prior)).phase == (PhaseView::Calling {
            endpoint: d.endpoint->0,
            body: stage_body(d.stage, job, prior)->0,
        }),
        d.phase is Calling ==> d.step(EventView::Called(Ok(status))).phase == PhaseView::Answered,
        d.phase == PhaseView::Answered ==> d.step(EventView::BodyRead(Ok(output))).phase == (
        PhaseView::Saving { output }),
        d.phase is Saving && d.current == Stage::QaFinal ==> d.step(
            EventView::OutputSaved(fault),
        ).phase == (PhaseView::Closing { status: JobStatus::Completed, stage: Stage::Complete }),
        d.phase is Saving && d.current != Stage::QaFinal && d.current.next() is Some ==> d.step(
            EventView::OutputSaved(fault),
        ).phase == (PhaseView::Closing {
            status: JobStatus::Running,
            stage: d.current.next()->0,
        }),
        d.phase is Closing && d.current == Stage::QaFinal ==> d.step(
            EventView::StatusSet(None),
        ).phase == PhaseView::Finished(OutcomeView::Completed(None)),
        d.phase is Closing && d.current != Stage::QaFinal ==> d.step(
            EventView::StatusSet(None),
        ).phase == PhaseView::Finished(OutcomeView::Completed(d.current.next())),
{
}

/// An event that is no answer to what was asked changes nothing.
pub proof fn law_stray_events_change_nothing(d: DispatchView, event: EventView)
    requires
        match d.action() {
            ActionView::Probe(_) => !(event is Probed),
            ActionView::SetStatus(_, _) => !(event is StatusSet),
            ActionView::LoadJob => !(event is JobLoaded),
            ActionView::LoadOutputs => !(event is OutputsLoaded),
            ActionView::Call { .. } => !(event is Called),
            ActionView::ReadText => !(event is TextRead),
            ActionView::ReadBody => !(event is BodyRead),
            ActionView::SaveOutput(_) => !(event is OutputSaved),
            ActionView::Finish(_) => true,
        },
    ensures
        d.step(event) == d,
{
}

/// A job that is not there, or a service that refuses, breaks off or answers
/// what is no JSON, leaves the job marked as running in its stage and nothing
/// else changed; the outcome names the fault.
pub proof fn law_failed_calls_only_mark_the_job(
    urls: Map<Seq<char>, Seq<char>>,
    store: StoreView,
    job_id: Seq<char>,
    stage: Seq<char>,
    parse_error: Seq<char>,
    replies: RepliesView,
    current: Stage,
)
    requires
        store.wf(),
        parsed_stage(stage) == Some(current),
        urls.contains_key(stage),
        replies.health is Ok,
        200 <= replies.health->Ok_0.code < 300,
    ensures
        ({
            let (after, outcome) = dispatched(urls, store, job_id, stage, parse_error, replies);
            let marked = store.with_status(job_id, JobStatus::Running, current);
            let body = stage_body(
                stage,
                marked.job(job_id)->0,
                outputs_by_stage(store.outputs_of(job_id)),
            );
            let refused = replies.call is Ok && !(200 <= replies.call->Ok_0.code < 300);
            let broken = replies.call is Ok && !refused && replies.body is Err;
            &&& store.job(job_id) is None ==> after == store && outcome == OutcomeView::Failed(
                "job '"@ + job_id + "' not found"@,
            )
            &&& store.job(job_id) is Some && body is None ==> after == marked && outcome
                == OutcomeView::Failed("request build error: unsupported stage: "@ + stage)
            &&& store.job(job_id) is Some && body is Some && replies.call is Err ==> after == marked
                && outcome == if replies.call->Err_0.connect || replies.call->Err_0.timeout {
                OutcomeView::ServiceUnavailable(
                    "service "@ + stage + " at "@ + endpoint(urls, stage)->0 + " unreachable: "@
                        + replies.call->Err_0.error,
                )
            } else {
                OutcomeView::Failed(
                    "HTTP error calling "@ + stage + ": "@ + replies.call->Err_0.error,
                )
            }
            &&& store.job(job_id) is Some && body is Some && refused ==> after == marked && outcome
                == OutcomeView::Failed(
                "service "@ + stage + " returned "@ + replies.call->Ok_0.text + ": "@
                    + replies.text,
            )
            &&& store.job(job_id) is Some && body is Some && broken ==> after == marked && outcome
                == OutcomeView::Failed(
                "failed to parse response from "@ + stage + ": "@ + replies.body->Err_0,
            )
        }),
{
    let marked = store.with_status(job_id, JobStatus::Running, current);
    law_status_updates_touch_one_job(store, job_id, JobStatus::Running, current, job_id);
    assert(marked.outputs_of(job_id) == store.outputs_of(job_id));
    reveal_strlit("request build error: ");
    reveal_strlit("unsupported stage: ");
    reveal_strlit("request build error: unsupported stage: ");
    assert("request build error: "@ + ("unsupported stage: "@ + stage)
        =~= "request build error: unsupported stage: "@ + stage);
    reveal_with_fuel(run, 10);
}

/// What counts of a [`DispatchOutcome`] is what it holds.
pub proof fn law_outcomes_are_what_they_hold(outcome: DispatchOutcome)
    ensures
        match outcome {
            DispatchOutcome::Completed(next) => outcome@ == OutcomeView::Completed(next),
            DispatchOutcome::ServiceUnavailable(reason) => outcome@ == OutcomeView::ServiceUnavailable(
                 reason@ ,
            ),
            DispatchOutcome::Failed(reason) => outcome@ == OutcomeView::Failed(reason@),
        },
{
}

/// What counts of a [`Phase`] is what it holds.
pub proof fn law_phases_are_what_they_hold(phase: Phase)
    ensures
        match phase {
            Phase::Probing { url } => phase@ == (PhaseView::Probing { url: url@ }),
            Phase::Marking => phase@ == PhaseView::Marking,
            Phase::Loading => phase@ == PhaseView::Loading,
            Phase::Collecting { job } => phase@ == (PhaseView::Collecting { job: job@ }),
            Phase::Calling { endpoint, body } => phase@ == (PhaseView::Calling {
                endpoint: endpoint@,
                body: body@,
            }),
            Phase::Refused { reply } => phase@ == (PhaseView::Refused { reply: reply@ }),
            Phase::Answered => phase@ == PhaseView::Answered,
            Phase::Saving { output } => phase@ == (PhaseView::Saving { output: output@ }),
            Phase::Closing { status, stage } => phase@ == (PhaseView::Closing {
                status: status,
                stage: stage,
            }),
            Phase::Finished(outcome) => phase@ == PhaseView::Finished(outcome@),
        },
{
}

/// What counts of an [`Action`] is what it holds.
pub proof fn law_actions_are_what_they_hold(action: Action)
    ensures
        match action {
            Action::Probe(url) => action@ == ActionView::Probe(url@),
            Action::SetStatus(status, stage) => action@ == ActionView::SetStatus(status, stage),
            Action::LoadJob => action@ == ActionView::LoadJob,
            Action::LoadOutputs => action@ == ActionView::LoadOutputs,
            Action::Call { endpoint, body } => action@ == (ActionView::Call {
                endpoint: endpoint@,
                body: body@,
            }),
            Action::ReadText => action@ == ActionView::ReadText,
            Action::ReadBody => action@ == ActionView::ReadBody,
            Action::SaveOutput(output) => action@ == ActionView::SaveOutput(output@),
            Action::Finish(outcome) => action@ == ActionView::Finish(outcome@),
        },
{
}

/// What counts of a [`Dispatch`] is what it holds, field by field.
pub proof fn law_dispatches_are_what_they_hold(dispatch: Dispatch)
    ensures
        dispatch@.job_id == dispatch.job_id@,
        dispatch@.stage == dispatch.stage@,
        dispatch@.current == dispatch.current,
        dispatch.endpoint matches Some(v) ==> dispatch@.endpoint == Some(v@),
        dispatch.endpoint is None ==> dispatch@.endpoint is None,
        dispatch@.phase == dispatch.phase@,
{
}

/// A result that is good has no fault, and one that is not has its reason.
pub proof fn law_faults_are_reasons(reason: String)
    ensures
        fault(Ok::<(), String>(())) is None,
        fault(Err::<(), String>(reason)) == Some(reason@),
{
}

/// What counts of an [`Event`] is what it holds.
pub proof fn law_events_are_what_they_hold(event: Event)
    ensures
        match event {
            Event::Probed(Ok(status)) => event@ is Probed && event@->Probed_0 is Ok
                && event@->Probed_0->Ok_0 == status@,
            Event::Probed(Err(e)) => event@ is Probed && event@->Probed_0 is Err
                && event@->Probed_0->Err_0 == e@,
            Event::StatusSet(Ok(_)) => event@ == EventView::StatusSet(None),
            Event::StatusSet(Err(e)) => event@ == EventView::StatusSet(Some(e@)),
            Event::JobLoaded(Ok(Some(job))) => event@ == EventView::JobLoaded(Ok(Some(job@))),
            Event::JobLoaded(Ok(None)) => event@ == EventView::JobLoaded(Ok(None)),
            Event::JobLoaded(Err(e)) => event@ == EventView::JobLoaded(Err(e@)),
            Event::OutputsLoaded(prior) => event@ == EventView::OutputsLoaded(
                members_view(prior@),
            ),
            Event::Called(Ok(status)) => event@ is Called && event@->Called_0 is Ok
                && event@->Called_0->Ok_0 == status@,
            Event::Called(Err(e)) => event@ is Called && event@->Called_0 is Err
                && event@->Called_0->Err_0 == e@,
            Event::TextRead(text) => event@ == EventView::TextRead(text@),
            Event::BodyRead(Ok(body)) => event@ is BodyRead && event@->BodyRead_0 is Ok
                && event@->BodyRead_0->Ok_0 == body@,
            Event::BodyRead(Err(e)) => event@ is BodyRead && event@->BodyRead_0 is Err
                && event@->BodyRead_0->Err_0 == e@,
            Event::OutputSaved(Ok(_)) => event@ == EventView::OutputSaved(None),
            Event::OutputSaved(Err(e)) => event@ == EventView::OutputSaved(Some(e@)),
        },
{
}

} // verus!
