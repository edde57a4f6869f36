//! The course of the demo.
//!
//! A [`Demo`] says what is to be done next ([`Demo::action`]) and takes what
//! came of it ([`Demo::step`]), which gives the lines to be shown, until the
//! demo is over. It checks the mock services and the API gateway, submits a
//! demo job, and monitors it to completion.

use crate::demo_runner::{
    demo_job, demo_request, failure_lines, failure_log, pair_views, progress, progress_label,
    timeline, timeline_lines, Created, Detail,
};
use crate::json::{holds, items_view, Json, JsonView};
use crate::operator_cli::line;
use crate::registry::text_view;
use crate::text::{decimal, decimal_text, left_aligned, left_aligned_text, plus, same_text, views};
use vstd::prelude::*;
use vstd::string::*;

verus! {

/// How far a demo has come.
#[derive(Debug)]
pub enum DemoPhase {
    /// Are the mock services up?
    CheckMock,
    /// They are not, and are started.
    StartMock,
    /// A pause before the next of so many looks at them.
    MockPause { left: u32 },
    /// A look at them.
    MockLook { left: u32 },
    /// Is the API gateway up?
    CheckGateway,
    /// The demo job is submitted.
    Submitting,
    /// A pause before the next look at the job.
    Pausing,
    /// A look at the job.
    Looking,
    /// The job has failed at that stage, and its events are fetched.
    Failing { stage: String },
    /// The job is complete, and its results are fetched.
    Fetching,
    /// Its events are fetched.
    Timeline,
    /// The demo is over, with that error if any.
    Over(Option<String>),
}

/// What a [`DemoPhase`] says.
pub enum DemoPhaseView {
    CheckMock,
    StartMock,
    MockPause { left: u32 },
    MockLook { left: u32 },
    CheckGateway,
    Submitting,
    Pausing,
    Looking,
    Failing { stage: Seq<char> },
    Fetching,
    Timeline,
    Over(Option<Seq<char>>),
}

impl View for DemoPhase {
    type V = DemoPhaseView;

    open spec fn view(&self) -> DemoPhaseView {
        match self {
            DemoPhase::CheckMock => DemoPhaseView::CheckMock,
            DemoPhase::StartMock => DemoPhaseView::StartMock,
            DemoPhase::MockPause { left } => DemoPhaseView::MockPause { left: *left },
            DemoPhase::MockLook { left } => DemoPhaseView::MockLook { left: *left },
            DemoPhase::CheckGateway => DemoPhaseView::CheckGateway,
            DemoPhase::Submitting => DemoPhaseView::Submitting,
            DemoPhase::Pausing => DemoPhaseView::Pausing,
            DemoPhase::Looking => DemoPhaseView::Looking,
            DemoPhase::Failing { stage } => DemoPhaseView::Failing { stage: stage@ },
            DemoPhase::Fetching => DemoPhaseView::Fetching,
            DemoPhase::Timeline => DemoPhaseView::Timeline,
            DemoPhase::Over(error) => DemoPhaseView::Over(text_view(*error)),
        }
    }
}

/// A demo.
#[derive(Debug)]
pub struct Demo {
    pub api_url: String,
    pub mock_port: u16,
    /// The job, once it was submitted.
    pub job_id: String,
    /// What was last seen of it.
    pub last_stage: String,
    pub last_status: String,
    pub phase: DemoPhase,
}

/// What a [`Demo`] says.
pub struct DemoView {
    pub api_url: Seq<char>,
    pub mock_port: u16,
    pub job_id: Seq<char>,
    pub last_stage: Seq<char>,
    pub last_status: Seq<char>,
    pub phase: DemoPhaseView,
}

impl View for Demo {
    type V = DemoView;

    open spec fn view(&self) -> DemoView {
        DemoView {
            api_url: self.api_url@,
            mock_port: self.mock_port,
            job_id: self.job_id@,
            last_stage: self.last_stage@,
            last_status: self.last_status@,
            phase: self.phase@,
        }
    }
}

/// What is to be done next.
#[derive(Debug)]
pub enum DemoAction {
    /// GET the URL, for so many seconds at most; answer with
    /// [`DemoEvent::Probed`].
    Probe { url: String, seconds: u64 },
    /// Start the mock services on the port; answer with [`DemoEvent::Started`].
    StartServer(u16),
    /// Wait for so many milliseconds; answer with [`DemoEvent::Slept`].
    Sleep(u64),
    /// POST the body; answer with [`DemoEvent::Submitted`].
    Submit { url: String, body: Json },
    /// Answer with [`DemoEvent::TimedOut`] if more than so many seconds have
    /// passed since the job was submitted; otherwise wait for so many
    /// milliseconds and answer with [`DemoEvent::Slept`].
    Pause { limit_seconds: u64, milliseconds: u64 },
    /// GET the job; answer with [`DemoEvent::JobSeen`].
    GetJob { url: String },
    /// GET the events; answer with [`DemoEvent::EventsRead`].
    GetEvents { url: String },
    /// GET the job in detail; answer with [`DemoEvent::DetailRead`].
    GetDetail { url: String },
    /// Nothing: the demo is over, with that error if any.
    End(Option<String>),
}

/// What a [`DemoAction`] says.
pub enum DemoActionView {
    Probe { url: Seq<char>, seconds: u64 },
    StartServer(u16),
    Sleep(u64),
    Submit { url: Seq<char>, body: JsonView },
    Pause { limit_seconds: u64, milliseconds: u64 },
    GetJob { url: Seq<char> },
    GetEvents { url: Seq<char> },
    GetDetail { url: Seq<char> },
    End(Option<Seq<char>>),
}

impl View for DemoAction {
    type V = DemoActionView;

    open spec fn view(&self) -> DemoActionView {
        match self {
            DemoAction::Probe { url, seconds } => DemoActionView::Probe {
                url: url@,
                seconds: *seconds,
            },
            DemoAction::StartServer(port) => DemoActionView::StartServer(*port),
            DemoAction::Sleep(ms) => DemoActionView::Sleep(*ms),
            DemoAction::Submit { url, body } => DemoActionView::Submit { url: url@, body: body@ },
            DemoAction::Pause { limit_seconds, milliseconds } => DemoActionView::Pause {
                limit_seconds: *limit_seconds,
                milliseconds: *milliseconds,
            },
            DemoAction::GetJob { url } => DemoActionView::GetJob { url: url@ },
            DemoAction::GetEvents { url } => DemoActionView::GetEvents { url: url@ },
            DemoAction::GetDetail { url } => DemoActionView::GetDetail { url: url@ },
            DemoAction::End(error) => DemoActionView::End(text_view(*error)),
        }
    }
}

/// What came of submitting the job.
#[derive(Debug)]
pub enum Submission {
    /// There was no response.
    Unsent,
    /// The response is an error.
    Refused { status: String, text: String },
    /// The response cannot be read.
    Unread(String),
    Accepted(Created),
}

/// What came of fetching the results.
#[derive(Debug)]
pub enum DetailReply {
    /// There was no response.
    Unfetched,
    /// The response cannot be read.
    Unread(String),
    Fetched(Detail),
}

/// What came of a [`DemoAction`].
#[derive(Debug)]
pub enum DemoEvent {
    /// Whether there was a response, and whether it is a success.
    Probed { answered: bool, success: bool },
    Started,
    Slept,
    TimedOut,
    Submitted(Submission),
    /// The job, where it can be read.
    JobSeen(Option<Json>),
    /// The events, where they can be read.
    EventsRead(Option<Vec<Json>>),
    DetailRead(DetailReply),
}

// ---------------------------------------------------------------------------
// Course
// ---------------------------------------------------------------------------

impl DemoView {
    pub open spec fn mock_url(self) -> Seq<char> {
        "http://127.0.0.1:"@ + decimal(self.mock_port as nat)
    }

    pub open spec fn job_url(self) -> Seq<char> {
        self.api_url + "/jobs/"@ + self.job_id
    }

    /// What is to be done next.
    pub open spec fn action(self) -> DemoActionView {
        match self.phase {
            DemoPhaseView::CheckMock => DemoActionView::Probe {
                url: self.mock_url() + "/healthz"@,
                seconds: 2,
            },
            DemoPhaseView::StartMock => DemoActionView::StartServer(self.mock_port),
            DemoPhaseView::MockPause { .. } => DemoActionView::Sleep(100),
            DemoPhaseView::MockLook { .. } => DemoActionView::Probe {
                url: self.mock_url() + "/healthz"@,
                seconds: 1,
            },
            DemoPhaseView::CheckGateway => DemoActionView::Probe {
                url: self.api_url + "/healthz"@,
                seconds: 2,
            },
            DemoPhaseView::Submitting => DemoActionView::Submit {
                url: self.api_url + "/jobs"@,
                body: demo_request(),
            },
            DemoPhaseView::Pausing => DemoActionView::Pause {
                limit_seconds: 120,
                milliseconds: 500,
            },
            DemoPhaseView::Looking => DemoActionView::GetJob { url: self.job_url() },
            DemoPhaseView::Failing { .. } => DemoActionView::GetEvents {
                url: self.job_url() + "/events"@,
            },
            DemoPhaseView::Fetching => DemoActionView::GetDetail {
                url: self.job_url() + "/detail"@,
            },
            DemoPhaseView::Timeline => DemoActionView::GetEvents {
                url: self.job_url() + "/events"@,
            },
            DemoPhaseView::Over(error) => DemoActionView::End(error),
        }
    }

    pub open spec fn at_phase(self, phase: DemoPhaseView) -> DemoView {
        DemoView { phase, ..self }
    }

    pub open spec fn over(self, error: Seq<char>) -> DemoView {
        self.at_phase(DemoPhaseView::Over(Some(error)))
    }

    /// The demo after an event, and the lines to be shown. An event that is no
    /// answer to the action changes and shows nothing.
    pub open spec fn step(self, event: DemoEvent) -> (DemoView, Seq<Seq<char>>) {
        match (self.phase, event) {
            (DemoPhaseView::CheckMock, DemoEvent::Probed { success, .. }) => if success {
                (
                    self.at_phase(DemoPhaseView::CheckGateway),
                    seq![
                        "   Mock services: UP at "@ + self.mock_url(),
                        "Step 2: Checking api-gateway..."@,
                    ],
                )
            } else {
                (
                    self.at_phase(DemoPhaseView::StartMock),
                    seq![
                        "   Mock services not running at "@ + self.mock_url(),
                        "   Starting embedded mock server...\n"@,
                    ],
                )
            },
            (DemoPhaseView::StartMock, DemoEvent::Started) => (
                self.at_phase(DemoPhaseView::MockPause { left: 20 }),
                Seq::empty(),
            ),
            (DemoPhaseView::MockPause { left }, DemoEvent::Slept) => (
                self.at_phase(DemoPhaseView::MockLook { left }),
                Seq::empty(),
            ),
            (DemoPhaseView::MockLook { left }, DemoEvent::Probed { answered, .. }) => if answered
                || left <= 1 {
                (
                    self.at_phase(DemoPhaseView::CheckGateway),
                    seq![
                        "   Mock services: STARTED at "@ + self.mock_url(),
                        "Step 2: Checking api-gateway..."@,
                    ],
                )
            } else {
                (
                    self.at_phase(DemoPhaseView::MockPause { left: (left - 1) as u32 }),
                    Seq::empty(),
                )
            },
            (DemoPhaseView::CheckGateway, DemoEvent::Probed { success, .. }) => if success {
                (
                    self.at_phase(DemoPhaseView::Submitting),
                    seq![
                        "   API gateway: UP at "@ + self.api_url,
                        "Step 3: Submitting demo job..."@,
                        "   Title: Rust Memory Safety in 30 Seconds"@,
                        "   Duration: 30s"@,
                    ],
                )
            } else {
                (
                    self.over("api-gateway not reachable"@),
                    seq![
                        "   API gateway: DOWN at "@ + self.api_url,
                        ""@,
                        "   Start the api-gateway and orchestrator first:"@,
                        "     just demo-services"@,
                        ""@,
                        "   Or set MOCK_PORT and all service URLs to point to mock:"@,
                        "     PLANNER_URL="@ + self.mock_url() + " \\"@,
                        "     RESEARCH_URL="@ + self.mock_url() + " \\"@,
                        "     ... etc"@,
                    ],
                )
            },
            (DemoPhaseView::Submitting, DemoEvent::Submitted(submission)) => match submission {
                Submission::Unsent => (self.over("failed to submit job"@), Seq::empty()),
                Submission::Refused { status, text } => (
                    self.over("job submission failed: "@ + status@ + ": "@ + text@),
                    Seq::empty(),
                ),
                Submission::Unread(e) => (self.over(e@), Seq::empty()),
                Submission::Accepted(created) => match created.job_id {
                    Some(id) => (
                        DemoView { job_id: id@, phase: DemoPhaseView::Pausing, ..self },
                        seq![
                            "   Job ID: "@ + id@,
                            "   Status: "@ + created.status@,
                            "Step 4: Monitoring pipeline progress..."@,
                        ],
                    ),
                    None => (self.over("no job_id in response"@), Seq::empty()),
                },
            },
            (DemoPhaseView::Pausing, DemoEvent::TimedOut) => (
                self.over("demo timed out waiting for job completion"@),
                Seq::empty(),
            ),
            (DemoPhaseView::Pausing, DemoEvent::Slept) => (
                self.at_phase(DemoPhaseView::Looking),
                Seq::empty(),
            ),
            (DemoPhaseView::Looking, DemoEvent::JobSeen(job)) => match job {
                Some(job) => self.seen(
                    job@.at("status"@).text_or("?"@),
                    job@.at("current_stage"@).text_or("?"@),
                ),
                None => (self.at_phase(DemoPhaseView::Pausing), Seq::empty()),
            },
            (DemoPhaseView::Failing { stage }, DemoEvent::EventsRead(events)) => (
                self.over("job failed at stage "@ + stage),
                match events {
                    Some(events) => failure_log(items_view(events@)),
                    None => Seq::empty(),
                },
            ),
            (DemoPhaseView::Fetching, DemoEvent::DetailRead(reply)) => match reply {
                DetailReply::Unfetched => (self.over("failed to fetch detail"@), Seq::empty()),
                DetailReply::Unread(e) => (self.over(e@), Seq::empty()),
                DetailReply::Fetched(detail) => (
                    self.at_phase(DemoPhaseView::Timeline),
                    results(detail).push("Step 6: Event timeline..."@),
                ),
            },
            (DemoPhaseView::Timeline, DemoEvent::EventsRead(events)) => (
                self.at_phase(DemoPhaseView::Over(None)),
                match events {
                    Some(events) => timeline(items_view(events@)),
                    None => Seq::empty(),
                },
            ),
            _ => (self, Seq::empty()),
        }
    }

    /// The demo after a look at the job. A line is shown where something has
    /// changed since the last look.
    pub open spec fn seen(self, status: Seq<char>, stage: Seq<char>) -> (DemoView, Seq<Seq<char>>) {
        let changed = stage != self.last_stage || status != self.last_status;
        let shown = if changed {
            seq!["   "@ + progress(stage) + " "@ + left_aligned(status, 12) + " "@ + stage]
        } else {
            Seq::empty()
        };
        let now = DemoView { last_stage: stage, last_status: status, ..self };
        if status == "Completed"@ {
            (now.at_phase(DemoPhaseView::Fetching), shown.push("Step 5: Fetching results..."@))
        } else if status == "Failed"@ {
            (now.at_phase(DemoPhaseView::Failing { stage }), shown.push(""@))
        } else {
            (now.at_phase(DemoPhaseView::Pausing), shown)
        }
    }
}

/// What is shown of the answer of a stage.
pub open spec fn result_line(pair: (Seq<char>, Seq<char>)) -> Seq<char> {
    "   "@ + left_aligned(pair.0, 16) + " "@ + pair.1
}

/// What is shown of the results.
pub open spec fn results(detail: Detail) -> Seq<Seq<char>> {
    let head = seq!["   Completed stages: "@ + decimal(detail.completed as nat) + "/8"@];
    match detail.outputs {
        Some(pairs) => head.push(""@).push("   Stage outputs:"@) + pair_views(pairs@).map_values(
            |p: (Seq<char>, Seq<char>)| result_line(p),
        ),
        None => head,
    }
}

fn show_results(detail: &Detail) -> (r: Vec<String>)
    ensures
        views(r@) == results(*detail),
{
    let mut lines: Vec<String> = Vec::new();
    assert(views(lines@) =~= Seq::empty());
    let n = decimal_text(detail.completed as u64);
    line(&mut lines, plus(plus("   Completed stages: ".to_string(), n.as_str()), "/8"));
    match &detail.outputs {
        Some(pairs) => {
            line(&mut lines, "".to_string());
            line(&mut lines, "   Stage outputs:".to_string());
            let ghost head = views(lines@);
            let ghost goal = pair_views(pairs@).map_values(
                |p: (Seq<char>, Seq<char>)| result_line(p),
            );
            let mut i: usize = 0;
            while i < pairs.len()
                invariant
                    i <= pairs@.len(),
                    goal == pair_views(pairs@).map_values(
                        |p: (Seq<char>, Seq<char>)| result_line(p),
                    ),
                    views(lines@) =~= head + goal.take(i as int),
                decreases pairs.len() - i,
            {
                let (stage, summary) = &pairs[i];
                let text = plus("   ".to_string(), left_aligned_text(stage.as_str(), 16).as_str());
                line(&mut lines, plus(plus(text, " "), summary.as_str()));
                assert(goal[i as int] == result_line((stage@, summary@)));
                assert(goal.take(i as int + 1) =~= goal.take(i as int).push(goal[i as int]));
                i += 1;
            }
            assert(goal.take(i as int) =~= goal);
        },
        None => {},
    }
    lines
}

impl Demo {
    /// Begin a demo.
    pub fn begin(api_url: &str, mock_port: u16) -> (r: (Demo, Vec<String>))
        ensures
            r.0@ == (DemoView {
                api_url: api_url@,
                mock_port,
                job_id: ""@,
                last_stage: ""@,
                last_status: ""@,
                phase: DemoPhaseView::CheckMock,
            }),
            views(r.1@) == seq![
                "\n=== Demo Runner: Pipeline Smoke Test ===\n"@,
                "Step 1: Checking mock services..."@,
            ],
    {
        let demo = Demo {
            api_url: api_url.to_string(),
            mock_port,
            job_id: "".to_string(),
            last_stage: "".to_string(),
            last_status: "".to_string(),
            phase: DemoPhase::CheckMock,
        };
        let mut lines: Vec<String> = Vec::new();
        assert(views(lines@) =~= Seq::empty());
        line(&mut lines, "\n=== Demo Runner: Pipeline Smoke Test ===\n".to_string());
        line(&mut lines, "Step 1: Checking mock services...".to_string());
        (demo, lines)
    }

    fn mock_url(&self) -> (r: String)
        ensures
            r@ == self@.mock_url(),
    {
        plus("http://127.0.0.1:".to_string(), decimal_text(self.mock_port as u64).as_str())
    }

    fn job_url(&self) -> (r: String)
        ensures
            r@ == self@.job_url(),
    {
        plus(plus(self.api_url.clone(), "/jobs/"), self.job_id.as_str())
    }

    /// What is to be done next.
    pub fn action(&self) -> (r: DemoAction)
        ensures
            r@ == self@.action(),
    {
        match &self.phase {
            DemoPhase::CheckMock => DemoAction::Probe {
                url: plus(self.mock_url(), "/healthz"),
                seconds: 2,
            },
            DemoPhase::StartMock => DemoAction::StartServer(self.mock_port),
            DemoPhase::MockPause { .. } => DemoAction::Sleep(100),
            DemoPhase::MockLook { .. } => DemoAction::Probe {
                url: plus(self.mock_url(), "/healthz"),
                seconds: 1,
            },
            DemoPhase::CheckGateway => DemoAction::Probe {
                url: plus(self.api_url.clone(), "/healthz"),
                seconds: 2,
            },
            DemoPhase::Submitting => DemoAction::Submit {
                url: plus(self.api_url.clone(), "/jobs"),
                body: demo_job(),
            },
            DemoPhase::Pausing => DemoAction::Pause { limit_seconds: 120, milliseconds: 500 },
            DemoPhase::Looking => DemoAction::GetJob { url: self.job_url() },
            DemoPhase::Failing { .. } => DemoAction::GetEvents {
                url: plus(self.job_url(), "/events"),
            },
            DemoPhase::Fetching => DemoAction::GetDetail { url: plus(self.job_url(), "/detail") },
            DemoPhase::Timeline => DemoAction::GetEvents { url: plus(self.job_url(), "/events") },
            DemoPhase::Over(error) => DemoAction::End(
                match error {
                    Some(e) => Some(e.clone()),
                    None => None,
                },
            ),
        }
    }

    fn gateway_down(&self) -> (lines: Vec<String>)
        ensures
            views(lines@) == seq![
                "   API gateway: DOWN at "@ + self.api_url@,
                ""@,
                "   Start the api-gateway and orchestrator first:"@,
                "     just demo-services"@,
                ""@,
                "   Or set MOCK_PORT and all service URLs to point to mock:"@,
                "     PLANNER_URL="@ + self@.mock_url() + " \\"@,
                "     RESEARCH_URL="@ + self@.mock_url() + " \\"@,
                "     ... etc"@,
            ],
    {
        let mut lines: Vec<String> = Vec::new();
        assert(views(lines@) =~= Seq::empty());
        line(
            &mut lines,
            plus("   API gateway: DOWN at ".to_string(), self.api_url.as_str()),
        );
        line(&mut lines, "".to_string());
        line(&mut lines, "   Start the api-gateway and orchestrator first:".to_string());
        line(&mut lines, "     just demo-services".to_string());
        line(&mut lines, "".to_string());
        line(
            &mut lines,
            "   Or set MOCK_PORT and all service URLs to point to mock:".to_string(),
        );
        let planner = plus("     PLANNER_URL=".to_string(), self.mock_url().as_str());
        line(&mut lines, plus(planner, " \\"));
        let research = plus("     RESEARCH_URL=".to_string(), self.mock_url().as_str());
        line(&mut lines, plus(research, " \\"));
        line(&mut lines, "     ... etc".to_string());
        lines
    }

    fn submitted(&mut self, submission: Submission) -> (lines: Vec<String>)
        requires
            old(self)@.phase == DemoPhaseView::Submitting,
        ensures
            (final(self)@, views(lines@)) == old(self)@.step(DemoEvent::Submitted(submission)),
    {
        let mut lines: Vec<String> = Vec::new();
        assert(views(lines@) =~= Seq::empty());
        match submission {
            Submission::Unsent => {
                self.phase = DemoPhase::Over(Some("failed to submit job".to_string()));
            },
            Submission::Refused { status, text } => {
                let e = plus(
                    plus(
                        plus("job submission failed: ".to_string(), status.as_str()),
                        ": ",
                    ),
                    text.as_str(),
                );
                self.phase = DemoPhase::Over(Some(e));
            },
            Submission::Unread(e) => {
                self.phase = DemoPhase::Over(Some(e));
            },
            Submission::Accepted(created) => match created.job_id {
                Some(id) => {
                    line(&mut lines, plus("   Job ID: ".to_string(), id.as_str()));
                    line(
                        &mut lines,
                        plus("   Status: ".to_string(), created.status.as_str()),
                    );
                    line(&mut lines, "Step 4: Monitoring pipeline progress...".to_string());
                    self.job_id = id;
                    self.phase = DemoPhase::Pausing;
                },
                None => {
                    self.phase = DemoPhase::Over(Some("no job_id in response".to_string()));
                },
            },
        }
        lines
    }

    fn seen(&mut self, job: &Json) -> (lines: Vec<String>)
        ensures
            (final(self)@, views(lines@)) == old(self)@.seen(
                job@.at("status"@).text_or("?"@),
                job@.at("current_stage"@).text_or("?"@),
            ),
    {
        let mut lines: Vec<String> = Vec::new();
        assert(views(lines@) =~= Seq::empty());
        let status = job.text_at("status", "?");
        let stage = job.text_at("current_stage", "?");
        if !same_text(stage, self.last_stage.as_str()) || !same_text(
            status,
            self.last_status.as_str(),
        ) {
            let text = plus(plus("   ".to_string(), progress_label(stage).as_str()), " ");
            let text = plus(plus(text, left_aligned_text(status, 12).as_str()), " ");
            line(&mut lines, plus(text, stage));
            self.last_stage = stage.to_string();
            self.last_status = status.to_string();
        }
        if same_text(status, "Completed") {
            line(&mut lines, "Step 5: Fetching results...".to_string());
            self.phase = DemoPhase::Fetching;
        } else if same_text(status, "Failed") {
            line(&mut lines, "".to_string());
            self.phase = DemoPhase::Failing { stage: stage.to_string() };
        } else {
            self.phase = DemoPhase::Pausing;
        }
        lines
    }

    /// Take in what came of the action, and give the lines to be shown. An
    /// event that is no answer to the action changes and shows nothing.
    pub fn step(&mut self, event: DemoEvent) -> (lines: Vec<String>)
        ensures
            (final(self)@, views(lines@)) == old(self)@.step(event),
    {
        let mut lines: Vec<String> = Vec::new();
        assert(views(lines@) =~= Seq::empty());
        match (&self.phase, event) {
            (DemoPhase::CheckMock, DemoEvent::Probed { success, .. }) => {
                let url = self.mock_url();
                if success {
                    line(&mut lines, plus("   Mock services: UP at ".to_string(), url.as_str()));
                    line(&mut lines, "Step 2: Checking api-gateway...".to_string());
                    self.phase = DemoPhase::CheckGateway;
                } else {
                    line(
                        &mut lines,
                        plus("   Mock services not running at ".to_string(), url.as_str()),
                    );
                    line(&mut lines, "   Starting embedded mock server...\n".to_string());
                    self.phase = DemoPhase::StartMock;
                }
            },
            (DemoPhase::StartMock, DemoEvent::Started) => {
                self.phase = DemoPhase::MockPause { left: 20 };
            },
            (DemoPhase::MockPause { left }, DemoEvent::Slept) => {
                let left: u32 = *left;
                self.phase = DemoPhase::MockLook { left };
            },
            (DemoPhase::MockLook { left }, DemoEvent::Probed { answered, .. }) => {
                let left: u32 = *left;
                if answered || left <= 1 {
                    let url = self.mock_url();
                    line(
                        &mut lines,
                        plus("   Mock services: STARTED at ".to_string(), url.as_str()),
                    );
                    line(&mut lines, "Step 2: Checking api-gateway...".to_string());
                    self.phase = DemoPhase::CheckGateway;
                } else {
                    self.phase = DemoPhase::MockPause { left: left - 1 };
                }
            },
            (DemoPhase::CheckGateway, DemoEvent::Probed { success, .. }) => {
                if success {
                    line(
                        &mut lines,
                        plus("   API gateway: UP at ".to_string(), self.api_url.as_str()),
                    );
                    line(&mut lines, "Step 3: Submitting demo job...".to_string());
                    line(
                        &mut lines,
                        "   Title: Rust Memory Safety in 30 Seconds".to_string(),
                    );
                    line(&mut lines, "   Duration: 30s".to_string());
                    self.phase = DemoPhase::Submitting;
                } else {
                    lines = self.gateway_down();
                    self.phase = DemoPhase::Over(Some("api-gateway not reachable".to_string()));
                }
            },
            (DemoPhase::Submitting, DemoEvent::Submitted(submission)) => {
                lines = self.submitted(submission);
            },
            (DemoPhase::Pausing, DemoEvent::TimedOut) => {
                self.phase = DemoPhase::Over(
                    Some("demo timed out waiting for job completion".to_string()),
                );
            },
            (DemoPhase::Pausing, DemoEvent::Slept) => {
                self.phase = DemoPhase::Looking;
            },
            (DemoPhase::Looking, DemoEvent::JobSeen(job)) => match job {
                Some(job) => {
                    lines = self.seen(&job);
                },
                None => {
                    self.phase = DemoPhase::Pausing;
                },
            },
            (DemoPhase::Failing { stage }, DemoEvent::EventsRead(events)) => {
                let e = plus("job failed at stage ".to_string(), stage.as_str());
                match events {
                    Some(events) => {
                        lines = failure_lines(&events);
                    },
                    None => {},
                }
                self.phase = DemoPhase::Over(Some(e));
            },
            (DemoPhase::Fetching, DemoEvent::DetailRead(reply)) => match reply {
                DetailReply::Unfetched => {
                    self.phase = DemoPhase::Over(Some("failed to fetch detail".to_string()));
                },
                DetailReply::Unread(e) => {
                    self.phase = DemoPhase::Over(Some(e));
                },
                DetailReply::Fetched(detail) => {
                    lines = show_results(&detail);
                    line(&mut lines, "Step 6: Event timeline...".to_string());
                    self.phase = DemoPhase::Timeline;
                },
            },
            (DemoPhase::Timeline, DemoEvent::EventsRead(events)) => {
                match events {
                    Some(events) => {
                        lines = timeline_lines(&events);
                    },
                    None => {},
                }
                self.phase = DemoPhase::Over(None);
            },
            _ => {},
        }
        lines
    }
}

// ---------------------------------------------------------------------------
// Laws
// ---------------------------------------------------------------------------

/// A demo succeeds only after the job was seen to be completed: results are
/// fetched exactly then, and without them there is no good end.
pub proof fn law_success_needs_a_completed_job(d: DemoView, event: DemoEvent)
    ensures
        d.step(event).0.phase == DemoPhaseView::Fetching && d.phase != DemoPhaseView::Fetching
            ==> d.phase == DemoPhaseView::Looking && d.step(event).0.last_status == "Completed"@,
        d.step(event).0.phase == DemoPhaseView::Timeline && d.phase != DemoPhaseView::Timeline
            ==> d.phase == DemoPhaseView::Fetching,
        d.step(event).0.phase == DemoPhaseView::Over(None) && d.phase != DemoPhaseView::Over(None)
            ==> d.phase == DemoPhaseView::Timeline,
{
}

/// A failed job ends the demo with an error that names its stage.
pub proof fn law_failed_jobs_end_the_demo(d: DemoView, job: Json, event: DemoEvent)
    requires
        d.phase == DemoPhaseView::Looking,
        job@.at("status"@) == JsonView::Text("Failed"@),
        event is EventsRead,
    ensures
        d.step(DemoEvent::JobSeen(Some(job))).0.step(event).0.phase == DemoPhaseView::Over(
            Some("job failed at stage "@ + job@.at("current_stage"@).text_or("?"@)),
        ),
{
    reveal_strlit("Failed");
    reveal_strlit("Completed");
    assert("Failed"@.len() != "Completed"@.len());
}

/// Once a demo is over, nothing changes that.
pub proof fn law_the_end_is_final(d: DemoView, event: DemoEvent)
    requires
        d.phase is Over,
    ensures
        d.step(event) == (d, Seq::<Seq<char>>::empty()),
{
}

/// Nothing is said twice: a look that finds a running job as it was shows
/// nothing.
pub proof fn law_unchanged_jobs_are_not_shown_again(
    d: DemoView,
    status: Seq<char>,
    stage: Seq<char>,
)
    requires
        status != "Completed"@,
        status != "Failed"@,
    ensures
        d.seen(status, stage).0.seen(status, stage) == (
            d.seen(status, stage).0,
            Seq::<Seq<char>>::empty(),
        ),
{
}

/// In each phase of a demo that is asked for which the phase is for: the mock
/// services and the gateway for their health, the gateway for the job.
pub proof fn law_phases_of_a_demo_ask_for_their_action(d: DemoView)
    ensures
        ({
            let mock = "http://127.0.0.1:"@ + decimal(d.mock_port as nat);
            let job = d.api_url + "/jobs/"@ + d.job_id;
            &&& d.phase == DemoPhaseView::CheckMock ==> d.action() == (DemoActionView::Probe {
                url: mock + "/healthz"@,
                seconds: 2,
            })
            &&& d.phase == DemoPhaseView::StartMock ==> d.action() == DemoActionView::StartServer(
                d.mock_port,
            )
            &&& d.phase is MockPause ==> d.action() == DemoActionView::Sleep(100)
            &&& d.phase is MockLook ==> d.action() == (DemoActionView::Probe {
                url: mock + "/healthz"@,
                seconds: 1,
            })
            &&& d.phase == DemoPhaseView::CheckGateway ==> d.action() == (DemoActionView::Probe {
                url: d.api_url + "/healthz"@,
                seconds: 2,
            })
            &&& d.phase == DemoPhaseView::Submitting ==> d.action() == (DemoActionView::Submit {
                url: d.api_url + "/jobs"@,
                body: demo_request(),
            })
            &&& d.phase == DemoPhaseView::Pausing ==> d.action() == (DemoActionView::Pause {
                limit_seconds: 120,
                milliseconds: 500,
            })
            &&& d.phase == DemoPhaseView::Looking ==> d.action() == (DemoActionView::GetJob {
                url: job,
            })
            &&& d.phase is Failing || d.phase == DemoPhaseView::Timeline ==> d.action() == (
            DemoActionView::GetEvents { url: job + "/events"@ })
            &&& d.phase == DemoPhaseView::Fetching ==> d.action() == (DemoActionView::GetDetail {
                url: job + "/detail"@,
            })
            &&& d.phase matches DemoPhaseView::Over(error) ==> d.action() == DemoActionView::End(
                error,
            )
        }),
{
}

/// The mock services are started where they are not up, and then looked for up
/// to twenty times, until they answer; the gateway has to be up.
pub proof fn law_services_come_first(d: DemoView, answered: bool, success: bool, left: u32)
    ensures
        ({
            let probed = d.step(DemoEvent::Probed { answered, success });
            let mock = "http://127.0.0.1:"@ + decimal(d.mock_port as nat);
            &&& d.phase == DemoPhaseView::CheckMock && success ==> probed.0.phase
                == DemoPhaseView::CheckGateway && probed.1 == seq![
                "   Mock services: UP at "@ + mock,
                "Step 2: Checking api-gateway..."@,
            ]
            &&& d.phase == DemoPhaseView::CheckMock && !success ==> probed.0.phase
                == DemoPhaseView::StartMock && probed.1 == seq![
                "   Mock services not running at "@ + mock,
                "   Starting embedded mock server...\n"@,
            ]
            &&& d.phase == DemoPhaseView::StartMock ==> d.step(DemoEvent::Started).0.phase == (
            DemoPhaseView::MockPause { left: 20 })
            &&& d.phase == (DemoPhaseView::MockPause { left }) ==> d.step(DemoEvent::Slept).0.phase
                == (DemoPhaseView::MockLook { left })
            &&& d.phase == (DemoPhaseView::MockLook { left }) && !answered && left > 1
                ==> probed.0.phase == (DemoPhaseView::MockPause { left: (left - 1) as u32 })
                && probed.1.len() == 0
            &&& d.phase == (DemoPhaseView::MockLook { left }) && (answered || left <= 1)
                ==> probed.0.phase == DemoPhaseView::CheckGateway && probed.1 == seq![
                "   Mock services: STARTED at "@ + mock,
                "Step 2: Checking api-gateway..."@,
            ]
            &&& d.phase == DemoPhaseView::CheckGateway && success ==> probed.0.phase
                == DemoPhaseView::Submitting && probed.1 == seq![
                "   API gateway: UP at "@ + d.api_url,
                "Step 3: Submitting demo job..."@,
                "   Title: Rust Memory Safety in 30 Seconds"@,
                "   Duration: 30s"@,
            ]
            &&& d.phase == DemoPhaseView::CheckGateway && !success ==> probed.0.phase
                == DemoPhaseView::Over(Some("api-gateway not reachable"@)) && probed.1 == seq![
                "   API gateway: DOWN at "@ + d.api_url,
                ""@,
                "   Start the api-gateway and orchestrator first:"@,
                "     just demo-services"@,
                ""@,
                "   Or set MOCK_PORT and all service URLs to point to mock:"@,
                "     PLANNER_URL="@ + mock + " \\"@,
                "     RESEARCH_URL="@ + mock + " \\"@,
                "     ... etc"@,
            ]
        }),
{
}

/// A job that was accepted is watched under its name; any other outcome of its
/// submission ends the demo with what went wrong.
pub proof fn law_accepted_jobs_are_watched(
    d: DemoView,
    created: Created,
    status: String,
    text: String,
    error: String,
)
    requires
        d.phase == DemoPhaseView::Submitting,
    ensures
        ({
            let accepted = d.step(DemoEvent::Submitted(Submission::Accepted(created)));
            &&& created.job_id matches Some(id) ==> {
                &&& accepted.0.job_id == id@
                &&& accepted.0.phase == DemoPhaseView::Pausing
                &&& accepted.1 == seq![
                    "   Job ID: "@ + id@,
                    "   Status: "@ + created.status@,
                    "Step 4: Monitoring pipeline progress..."@,
                ]
            }
            &&& created.job_id is None ==> accepted.0.phase == DemoPhaseView::Over(
                Some("no job_id in response"@),
            )
            &&& d.step(DemoEvent::Submitted(Submission::Unsent)).0.phase == DemoPhaseView::Over(
                Some("failed to submit job"@),
            )
            &&& d.step(DemoEvent::Submitted(Submission::Refused { status, text })).0.phase
                == DemoPhaseView::Over(
                Some("job submission failed: "@ + status@ + ": "@ + text@),
            )
            &&& d.step(DemoEvent::Submitted(Submission::Unread(error))).0.phase
                == DemoPhaseView::Over(Some(error@))
        }),
{
}

/// A job is looked at again and again until its time is up; each change of its
/// status or stage is shown, and its end leads on.
pub proof fn law_jobs_are_watched_to_their_end(
    d: DemoView,
    job: Json,
    status: Seq<char>,
    stage: Seq<char>,
)
    requires
        holds(job@, "status"@, JsonView::Text(status)),
        holds(job@, "current_stage"@, JsonView::Text(stage)),
    ensures
        d.phase == DemoPhaseView::Pausing ==> d.step(DemoEvent::Slept).0.phase
            == DemoPhaseView::Looking,
        d.phase == DemoPhaseView::Pausing ==> d.step(DemoEvent::TimedOut).0.phase
            == DemoPhaseView::Over(Some("demo timed out waiting for job completion"@)),
        d.phase == DemoPhaseView::Looking ==> d.step(DemoEvent::JobSeen(None)).0.phase
            == DemoPhaseView::Pausing,
        d.phase == DemoPhaseView::Looking ==> {
            let (next, lines) = d.step(DemoEvent::JobSeen(Some(job)));
            let changed = status != d.last_status || stage != d.last_stage;
            &&& next.last_status == status
            &&& next.last_stage == stage
            &&& next.job_id == d.job_id
            &&& changed ==> lines.len() > 0 && lines[0] == "   "@ + progress(stage) + " "@
                + left_aligned(status, 12) + " "@ + stage
            &&& status == "Completed"@ ==> next.phase == DemoPhaseView::Fetching && lines.len() > 0
                && lines.last() == "Step 5: Fetching results..."@ && lines.len() == if changed {
                2int
            } else {
                1
            }
            &&& status == "Failed"@ ==> next.phase == (DemoPhaseView::Failing { stage })
                && lines.len() == if changed {
                2int
            } else {
                1
            }
            &&& status != "Completed"@ && status != "Failed"@ ==> next.phase
                == DemoPhaseView::Pausing && lines.len() == if changed {
                1int
            } else {
                0
            }
        },
{
    reveal_strlit("Completed");
    reveal_strlit("Failed");
    assert("Completed"@.len() != "Failed"@.len());
}

/// The results are shown and then all events, which ends the demo well; after a
/// failure the last events are shown, and the error names the stage.
pub proof fn law_demos_end_with_the_events(
    d: DemoView,
    detail: Detail,
    error: String,
    events: Vec<Json>,
    stage: Seq<char>,
)
    ensures
        d.phase == DemoPhaseView::Fetching ==> {
            let (next, lines) = d.step(DemoEvent::DetailRead(DetailReply::Fetched(detail)));
            &&& next.phase == DemoPhaseView::Timeline
            &&& lines == results(detail).push("Step 6: Event timeline..."@)
            &&& d.step(DemoEvent::DetailRead(DetailReply::Unfetched)).0.phase
                == DemoPhaseView::Over(Some("failed to fetch detail"@))
            &&& d.step(DemoEvent::DetailRead(DetailReply::Unread(error))).0.phase
                == DemoPhaseView::Over(Some(error@))
        },
        d.phase == DemoPhaseView::Timeline ==> {
            let (next, lines) = d.step(DemoEvent::EventsRead(Some(events)));
            &&& next.phase == DemoPhaseView::Over(None)
            &&& lines == timeline(items_view(events@))
            &&& d.step(DemoEvent::EventsRead(None)).0.phase == DemoPhaseView::Over(None)
        },
        d.phase == (DemoPhaseView::Failing { stage }) ==> {
            let (next, lines) = d.step(DemoEvent::EventsRead(Some(events)));
            &&& next.phase == DemoPhaseView::Over(Some("job failed at stage "@ + stage))
            &&& lines == failure_log(items_view(events@))
        },
{
}

/// The results are the number of stages that have answered and then, where they
/// are known, a line for each answer in the order in which they are given.
pub proof fn law_every_result_is_a_line(detail: Detail, i: int)
    ensures
        results(detail).len() > 0,
        results(detail)[0] == "   Completed stages: "@ + decimal(detail.completed as nat) + "/8"@,
        detail.outputs is None ==> results(detail).len() == 1,
        detail.outputs matches Some(pairs) ==> {
            &&& results(detail).len() == pairs@.len() + 3
            &&& results(detail)[1] == ""@
            &&& results(detail)[2] == "   Stage outputs:"@
            &&& 0 <= i < pairs@.len() ==> results(detail)[i + 3] == "   "@ + left_aligned(
                pairs@[i].0@,
                16,
            ) + " "@ + pairs@[i].1@
        },
{
}

/// An event that is no answer to what was asked changes and shows nothing.
pub proof fn law_stray_events_leave_the_demo_alone(d: DemoView, event: DemoEvent)
    requires
        match d.action() {
            DemoActionView::Probe { .. } => !(event is Probed),
            DemoActionView::StartServer(_) => !(event is Started),
            DemoActionView::Sleep(_) => !(event is Slept),
            DemoActionView::Submit { .. } => !(event is Submitted),
            DemoActionView::Pause { .. } => !(event is Slept) && !(event is TimedOut),
            DemoActionView::GetJob { .. } => !(event is JobSeen),
            DemoActionView::GetEvents { .. } => !(event is EventsRead),
            DemoActionView::GetDetail { .. } => !(event is DetailRead),
            DemoActionView::End(_) => true,
        },
    ensures
        d.step(event).0 == d,
        d.step(event).1.len() == 0,
{
}

/// What counts of a [`DemoPhase`] is what it holds.
pub proof fn law_demo_phases_are_what_they_hold(phase: DemoPhase)
    ensures
        match phase {
            DemoPhase::CheckMock => phase@ == DemoPhaseView::CheckMock,
            DemoPhase::StartMock => phase@ == DemoPhaseView::StartMock,
            DemoPhase::MockPause { left } => phase@ == (DemoPhaseView::MockPause { left }),
            DemoPhase::MockLook { left } => phase@ == (DemoPhaseView::MockLook { left }),
            DemoPhase::CheckGateway => phase@ == DemoPhaseView::CheckGateway,
            DemoPhase::Submitting => phase@ == DemoPhaseView::Submitting,
            DemoPhase::Pausing => phase@ == DemoPhaseView::Pausing,
            DemoPhase::Looking => phase@ == DemoPhaseView::Looking,
            DemoPhase::Failing { stage } => phase@ == (DemoPhaseView::Failing { stage: stage@ }),
            DemoPhase::Fetching => phase@ == DemoPhaseView::Fetching,
            DemoPhase::Timeline => phase@ == DemoPhaseView::Timeline,
            DemoPhase::Over(error) => phase@ == DemoPhaseView::Over(text_view(error)),
        },
{
}

/// What counts of a [`DemoAction`] is what it holds.
pub proof fn law_demo_actions_are_what_they_hold(action: DemoAction)
    ensures
        match action {
            DemoAction::Probe { url, seconds } => action@ == (DemoActionView::Probe {
                url: url@,
                seconds,
            }),
            DemoAction::StartServer(port) => action@ == DemoActionView::StartServer(port),
            DemoAction::Sleep(ms) => action@ == DemoActionView::Sleep(ms),
            DemoAction::Submit { url, body } => action@ == (DemoActionView::Submit {
                url: url@,
                body: body@,
            }),
            DemoAction::Pause { limit_seconds, milliseconds } => action@ == (DemoActionView::Pause {
                limit_seconds,
                milliseconds,
            }),
            DemoAction::GetJob { url } => action@ == (DemoActionView::GetJob { url: url@ }),
            DemoAction::GetEvents { url } => action@ == (DemoActionView::GetEvents { url: url@ }),
            DemoAction::GetDetail { url } => action@ == (DemoActionView::GetDetail { url: url@ }),
            DemoAction::End(error) => action@ == DemoActionView::End(text_view(error)),
        },
{
}

/// What counts of a [`Demo`] is what it holds, field by field.
pub proof fn law_demos_are_what_they_hold(demo: Demo)
    ensures
        demo@.api_url == demo.api_url@,
        demo@.mock_port == demo.mock_port,
        demo@.job_id == demo.job_id@,
        demo@.last_stage == demo.last_stage@,
        demo@.last_status == demo.last_status@,
        demo@.phase == demo.phase@,
{
}

/// A job that does not say where it stands is shown with question marks, and is
/// looked at again.
pub proof fn law_jobs_that_say_nothing(d: DemoView, job: Json)
    requires
        d.phase == DemoPhaseView::Looking,
        job@ == JsonView::Object(Map::empty()),
    ensures
        d.step(DemoEvent::JobSeen(Some(job))).0.last_status == "?"@,
        d.step(DemoEvent::JobSeen(Some(job))).0.last_stage == "?"@,
        d.step(DemoEvent::JobSeen(Some(job))).0.phase == DemoPhaseView::Pausing,
{
    reveal_strlit("?");
    reveal_strlit("Completed");
    reveal_strlit("Failed");
    assert("?"@.len() == 1 && "Completed"@.len() == 9 && "Failed"@.len() == 6);
}

} // verus!
