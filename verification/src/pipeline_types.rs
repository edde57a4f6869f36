//! The types that the stages of the pipeline hand to each other.

use crate::json::plain;
use crate::text::{copy_strings, same_text, views};
use vstd::prelude::*;
use vstd::string::*;

verus! {

/// A point in time: seconds since 1970-01-01T00:00:00Z and nanoseconds on top.
#[derive(Debug, Clone, Copy, PartialEq, Eq, Structural)]
pub struct Timestamp {
    pub seconds: i64,
    pub nanos: u32,
}

/// A single-precision number, by its bits. Scores are carried, never
/// calculated with.
#[derive(Debug, Clone, Copy, PartialEq, Eq, Structural)]
pub struct Score {
    pub bits: u32,
}

/// Which service made an artifact.
#[derive(Debug, Clone)]
pub struct ProducerInfo {
    pub service_name: String,
    pub version: String,
}

#[derive(Debug, Clone, Copy, PartialEq, Eq, Structural)]
pub enum ValidationState {
    Pending,
    Passed,
    Failed,
}

/// The common wrapping of every artifact.
#[derive(Debug, Clone)]
pub struct ArtifactEnvelope<T> {
    pub artifact_id: String,
    pub artifact_type: String,
    pub version: u32,
    pub created_at: Timestamp,
    pub produced_by: ProducerInfo,
    pub input_refs: Vec<String>,
    pub evidence_refs: Vec<String>,
    pub validation: ValidationState,
    pub content_hash: String,
    pub payload: T,
}

#[derive(Debug, Clone)]
pub struct IdeaBrief {
    pub title: String,
    pub audience: String,
    pub objective: String,
    pub target_duration_seconds: u32,
    pub tone: String,
    pub must_include: Vec<String>,
    pub must_avoid: Vec<String>,
}

/// What a user asks for.
#[derive(Debug, Clone)]
pub struct PipelineJobRequest {
    pub title: String,
    pub idea: String,
    pub audience: String,
    pub target_duration_seconds: u32,
    pub tone: String,
    pub must_include: Vec<String>,
    pub must_avoid: Vec<String>,
}

/// What a [`PipelineJobRequest`] asks for.
pub struct RequestView {
    pub title: Seq<char>,
    pub idea: Seq<char>,
    pub audience: Seq<char>,
    pub target_duration_seconds: u32,
    pub tone: Seq<char>,
    pub must_include: Seq<Seq<char>>,
    pub must_avoid: Seq<Seq<char>>,
}

impl View for PipelineJobRequest {
    type V = RequestView;

    open spec fn view(&self) -> RequestView {
        RequestView {
            title: self.title@,
            idea: self.idea@,
            audience: self.audience@,
            target_duration_seconds: self.target_duration_seconds,
            tone: self.tone@,
            must_include: views(self.must_include@),
            must_avoid: views(self.must_avoid@),
        }
    }
}

impl PipelineJobRequest {
    /// A second request for the same.
    pub fn copy(&self) -> (r: PipelineJobRequest)
        ensures
            r@ == self@,
    {
        PipelineJobRequest {
            title: self.title.clone(),
            idea: self.idea.clone(),
            audience: self.audience.clone(),
            target_duration_seconds: self.target_duration_seconds,
            tone: self.tone.clone(),
            must_include: copy_strings(&self.must_include),
            must_avoid: copy_strings(&self.must_avoid),
        }
    }
}

/// Where a job stands as a whole.
#[derive(Debug, Clone, Copy, PartialEq, Eq, Structural)]
pub enum JobStatus {
    Queued,
    /// Held back until a service that is down comes back up.
    Pending,
    Running,
    WaitingForReview,
    Completed,
    Failed,
}

impl JobStatus {
    /// The status in words.
    pub open spec fn name(self) -> Seq<char> {
        match self {
            JobStatus::Queued => "Queued"@,
            JobStatus::Pending => "Pending"@,
            JobStatus::Running => "Running"@,
            JobStatus::WaitingForReview => "WaitingForReview"@,
            JobStatus::Completed => "Completed"@,
            JobStatus::Failed => "Failed"@,
        }
    }

    /// The status in words.
    pub fn to_string(&self) -> (r: String)
        ensures
            r@ == self.name(),
    {
        let name = match self {
            JobStatus::Queued => "Queued",
            JobStatus::Pending => "Pending",
            JobStatus::Running => "Running",
            JobStatus::WaitingForReview => "WaitingForReview",
            JobStatus::Completed => "Completed",
            JobStatus::Failed => "Failed",
        };
        name.to_owned()
    }
}

/// The stages that a job goes through.
#[derive(Debug, Clone, Copy, PartialEq, Eq, Structural)]
pub enum Stage {
    Planning,
    Research,
    Script,
    Storyboard,
    VisualGeneration,
    MusicGeneration,
    Tts,
    AsrValidation,
    Captions,
    RenderPreview,
    QaPreview,
    RenderFinal,
    QaFinal,
    Complete,
    Failed,
}

impl Stage {
    /// The name by which a stage is queued, stored and shown.
    pub open spec fn name(self) -> Seq<char> {
        match self {
            Stage::Planning => "Planning"@,
            Stage::Research => "Research"@,
            Stage::Script => "Script"@,
            Stage::Storyboard => "Storyboard"@,
            Stage::VisualGeneration => "VisualGeneration"@,
            Stage::MusicGeneration => "MusicGeneration"@,
            Stage::Tts => "Tts"@,
            Stage::AsrValidation => "AsrValidation"@,
            Stage::Captions => "Captions"@,
            Stage::RenderPreview => "RenderPreview"@,
            Stage::QaPreview => "QaPreview"@,
            Stage::RenderFinal => "RenderFinal"@,
            Stage::QaFinal => "QaFinal"@,
            Stage::Complete => "Complete"@,
            Stage::Failed => "Failed"@,
        }
    }

    /// The stage that follows in the minimal pipeline. Nothing follows a
    /// terminal stage; a stage outside the minimal pipeline is followed by the
    /// next one inside.
    pub open spec fn next(self) -> Option<Stage> {
        match self {
            Stage::Planning => Some(Stage::Research),
            Stage::Research => Some(Stage::Script),
            Stage::Script => Some(Stage::Tts),
            Stage::Storyboard => Some(Stage::Tts),
            Stage::VisualGeneration => Some(Stage::Tts),
            Stage::MusicGeneration => Some(Stage::Tts),
            Stage::Tts => Some(Stage::AsrValidation),
            Stage::AsrValidation => Some(Stage::Captions),
            Stage::Captions => Some(Stage::RenderFinal),
            Stage::RenderPreview => Some(Stage::RenderFinal),
            Stage::QaPreview => Some(Stage::RenderFinal),
            Stage::RenderFinal => Some(Stage::QaFinal),
            Stage::QaFinal => Some(Stage::Complete),
            Stage::Complete => None,
            Stage::Failed => None,
        }
    }

    /// Whether a job in this stage is over.
    pub open spec fn terminal(self) -> bool {
        self == Stage::Complete || self == Stage::Failed
    }

    /// The name by which a stage is queued, stored and shown.
    pub fn to_string(&self) -> (r: String)
        ensures
            r@ == self.name(),
    {
        let name = match self {
            Stage::Planning => "Planning",
            Stage::Research => "Research",
            Stage::Script => "Script",
            Stage::Storyboard => "Storyboard",
            Stage::VisualGeneration => "VisualGeneration",
            Stage::MusicGeneration => "MusicGeneration",
            Stage::Tts => "Tts",
            Stage::AsrValidation => "AsrValidation",
            Stage::Captions => "Captions",
            Stage::RenderPreview => "RenderPreview",
            Stage::QaPreview => "QaPreview",
            Stage::RenderFinal => "RenderFinal",
            Stage::QaFinal => "QaFinal",
            Stage::Complete => "Complete",
            Stage::Failed => "Failed",
        };
        name.to_owned()
    }

    /// The stage of that name, where there is one.
    pub fn from_name(name: &str) -> (r: Option<Stage>)
        ensures
            r == stage_named(name@),
    {
        proof {
            reveal_stage_names();
            lemma_stage_named(name@);
        }
        let r = if same_text(name, "Planning") {
            Some(Stage::Planning)
        } else if same_text(name, "Research") {
            Some(Stage::Research)
        } else if same_text(name, "Script") {
            Some(Stage::Script)
        } else if same_text(name, "Storyboard") {
            Some(Stage::Storyboard)
        } else if same_text(name, "VisualGeneration") {
            Some(Stage::VisualGeneration)
        } else if same_text(name, "MusicGeneration") {
            Some(Stage::MusicGeneration)
        } else if same_text(name, "Tts") {
            Some(Stage::Tts)
        } else if same_text(name, "AsrValidation") {
            Some(Stage::AsrValidation)
        } else if same_text(name, "Captions") {
            Some(Stage::Captions)
        } else if same_text(name, "RenderPreview") {
            Some(Stage::RenderPreview)
        } else if same_text(name, "QaPreview") {
            Some(Stage::QaPreview)
        } else if same_text(name, "RenderFinal") {
            Some(Stage::RenderFinal)
        } else if same_text(name, "QaFinal") {
            Some(Stage::QaFinal)
        } else if same_text(name, "Complete") {
            Some(Stage::Complete)
        } else if same_text(name, "Failed") {
            Some(Stage::Failed)
        } else {
            None
        };
        assert(r matches Some(stage) ==> stage.name() == name@);
        r
    }

    /// Return the next stage in the minimal pipeline, or None if complete/failed.
    pub fn next_mvp(&self) -> (r: Option<Stage>)
        ensures
            r == self.next(),
    {
        match self {
            Stage::Planning => Some(Stage::Research),
            Stage::Research => Some(Stage::Script),
            Stage::Script => Some(Stage::Tts),
            Stage::Tts => Some(Stage::AsrValidation),
            Stage::AsrValidation => Some(Stage::Captions),
            Stage::Captions => Some(Stage::RenderFinal),
            Stage::RenderFinal => Some(Stage::QaFinal),
            Stage::QaFinal => Some(Stage::Complete),
            Stage::Complete | Stage::Failed => None,
            Stage::Storyboard | Stage::VisualGeneration | Stage::MusicGeneration => Some(
                Stage::Tts,
            ),
            Stage::RenderPreview | Stage::QaPreview => Some(Stage::RenderFinal),
        }
    }
}

/// The stage of that name, where there is one.
pub open spec fn stage_named(name: Seq<char>) -> Option<Stage> {
    if exists|stage: Stage| #[trigger] stage.name() == name {
        Some(choose|stage: Stage| #[trigger] stage.name() == name)
    } else {
        None
    }
}

/// The stages of the minimal pipeline, in order.
pub open spec fn mvp_stages() -> Seq<Stage> {
    seq![
        Stage::Planning,
        Stage::Research,
        Stage::Script,
        Stage::Tts,
        Stage::AsrValidation,
        Stage::Captions,
        Stage::RenderFinal,
        Stage::QaFinal,
    ]
}

/// The stage reached after `n` steps, where that many can be made.
pub open spec fn after_steps(stage: Stage, n: nat) -> Option<Stage>
    decreases n,
{
    if n == 0 {
        Some(stage)
    } else {
        match stage.next() {
            Some(next) => after_steps(next, (n - 1) as nat),
            None => None,
        }
    }
}

/// Each stage of the minimal pipeline is followed by the next in the order,
/// and the last by `Complete`.
pub proof fn law_minimal_pipeline_order(i: int)
    requires
        0 <= i < mvp_stages().len(),
    ensures
        i + 1 < mvp_stages().len() ==> mvp_stages()[i].next() == Some(mvp_stages()[i + 1]),
        i + 1 == mvp_stages().len() ==> mvp_stages()[i].next() == Some(Stage::Complete),
{
}

/// A stage has no successor exactly when it is terminal, and no stage leads to
/// `Failed`.
pub proof fn law_only_terminal_stages_end(stage: Stage)
    ensures
        stage.next() is None <==> stage.terminal(),
        stage.next() != Some(Stage::Failed),
{
}

/// What follows a stage is in the minimal pipeline or is `Complete`.
pub proof fn law_successors_are_minimal(stage: Stage)
    ensures
        stage.next() matches Some(next) ==> next == Stage::Complete || mvp_stages().contains(next),
{
    let order = mvp_stages();
    assert(order[1] == Stage::Research && order[2] == Stage::Script && order[3] == Stage::Tts
        && order[4] == Stage::AsrValidation && order[5] == Stage::Captions && order[6]
        == Stage::RenderFinal && order[7] == Stage::QaFinal);
}

/// Every stage but `Failed` reaches `Complete`, in no more than eight steps.
pub proof fn law_every_job_can_complete(stage: Stage)
    requires
        stage != Stage::Failed,
    ensures
        exists|n: nat| n <= 8 && #[trigger] after_steps(stage, n) == Some(Stage::Complete),
{
    reveal_with_fuel(after_steps, 9);
    assert(after_steps(Stage::Complete, 0) == Some(Stage::Complete));
    assert(after_steps(Stage::QaFinal, 1) == Some(Stage::Complete));
    assert(after_steps(Stage::RenderFinal, 2) == Some(Stage::Complete));
    assert(after_steps(Stage::Captions, 3) == Some(Stage::Complete));
    assert(after_steps(Stage::RenderPreview, 3) == Some(Stage::Complete));
    assert(after_steps(Stage::QaPreview, 3) == Some(Stage::Complete));
    assert(after_steps(Stage::AsrValidation, 4) == Some(Stage::Complete));
    assert(after_steps(Stage::Tts, 5) == Some(Stage::Complete));
    assert(after_steps(Stage::Script, 6) == Some(Stage::Complete));
    assert(after_steps(Stage::Storyboard, 6) == Some(Stage::Complete));
    assert(after_steps(Stage::VisualGeneration, 6) == Some(Stage::Complete));
    assert(after_steps(Stage::MusicGeneration, 6) == Some(Stage::Complete));
    assert(after_steps(Stage::Research, 7) == Some(Stage::Complete));
    assert(after_steps(Stage::Planning, 8) == Some(Stage::Complete));
}

proof fn reveal_stage_names()
    ensures
        "Planning"@.len() == 8 && "Planning"@[0] == 'P',
        "Research"@.len() == 8 && "Research"@[0] == 'R',
        "Script"@.len() == 6 && "Script"@[0] == 'S',
        "Storyboard"@.len() == 10,
        "VisualGeneration"@.len() == 16,
        "MusicGeneration"@.len() == 15,
        "Tts"@.len() == 3,
        "AsrValidation"@.len() == 13 && "AsrValidation"@[0] == 'A',
        "Captions"@.len() == 8 && "Captions"@[0] == 'C' && "Captions"@[1] == 'a',
        "RenderPreview"@.len() == 13 && "RenderPreview"@[0] == 'R',
        "QaPreview"@.len() == 9,
        "RenderFinal"@.len() == 11,
        "QaFinal"@.len() == 7,
        "Complete"@.len() == 8 && "Complete"@[0] == 'C' && "Complete"@[1] == 'o',
        "Failed"@.len() == 6 && "Failed"@[0] == 'F',
{
    reveal_strlit("Planning");
    reveal_strlit("Research");
    reveal_strlit("Script");
    reveal_strlit("Storyboard");
    reveal_strlit("VisualGeneration");
    reveal_strlit("MusicGeneration");
    reveal_strlit("Tts");
    reveal_strlit("AsrValidation");
    reveal_strlit("Captions");
    reveal_strlit("RenderPreview");
    reveal_strlit("QaPreview");
    reveal_strlit("RenderFinal");
    reveal_strlit("QaFinal");
    reveal_strlit("Complete");
    reveal_strlit("Failed");
}

proof fn lemma_stage_named(name: Seq<char>)
    ensures
        forall|stage: Stage| #[trigger]
            stage.name() == name ==> stage_named(name) == Some(stage),
        stage_named(name) matches Some(stage) ==> stage.name() == name,
{
    assert forall|stage: Stage| #[trigger] stage.name() == name implies stage_named(name) == Some(
        stage,
    ) by {
        law_stage_names_are_distinct(stage, stage_named(name)->0);
    }
}

/// The name tells the stage: no two stages share one.
pub proof fn law_stage_names_are_distinct(a: Stage, b: Stage)
    ensures
        a.name() == b.name() <==> a == b,
{
    reveal_stage_names();
}

/// A stage is found by its name.
pub proof fn law_stages_are_found_by_name(stage: Stage)
    ensures
        stage_named(stage.name()) == Some(stage),
{
    lemma_stage_named(stage.name());
}

/// The names of stages need no escapes in a JSON string.
pub proof fn lemma_stage_names_are_plain(stage: Stage)
    ensures
        plain(stage.name()),
{
    reveal_strlit("Planning");
    reveal_strlit("Research");
    reveal_strlit("Script");
    reveal_strlit("Storyboard");
    reveal_strlit("VisualGeneration");
    reveal_strlit("MusicGeneration");
    reveal_strlit("Tts");
    reveal_strlit("AsrValidation");
    reveal_strlit("Captions");
    reveal_strlit("RenderPreview");
    reveal_strlit("QaPreview");
    reveal_strlit("RenderFinal");
    reveal_strlit("QaFinal");
    reveal_strlit("Complete");
    reveal_strlit("Failed");
}

/// A job on its way through the pipeline.
#[derive(Debug, Clone)]
pub struct PipelineJob {
    pub job_id: String,
    pub submitted_at: Timestamp,
    pub status: JobStatus,
    pub current_stage: Stage,
    pub request: PipelineJobRequest,
}

/// What a [`PipelineJob`] is.
pub struct JobView {
    pub job_id: Seq<char>,
    pub submitted_at: Timestamp,
    pub status: JobStatus,
    pub current_stage: Stage,
    pub request: RequestView,
}

impl View for PipelineJob {
    type V = JobView;

    open spec fn view(&self) -> JobView {
        JobView {
            job_id: self.job_id@,
            submitted_at: self.submitted_at,
            status: self.status,
            current_stage: self.current_stage,
            request: self.request@,
        }
    }
}

impl PipelineJob {
    /// A second description of the same job.
    pub fn copy(&self) -> (r: PipelineJob)
        ensures
            r@ == self@,
    {
        PipelineJob {
            job_id: self.job_id.clone(),
            submitted_at: self.submitted_at,
            status: self.status,
            current_stage: self.current_stage,
            request: self.request.copy(),
        }
    }
}

/// A verified fact from research, with source attribution.
#[derive(Debug, Clone)]
pub struct ResearchFact {
    pub claim: String,
    pub source: String,
    pub confidence: Score,
}

/// Output of the research stage: gathered facts for script writing.
#[derive(Debug, Clone)]
pub struct ResearchPacket {
    pub job_id: String,
    pub query: String,
    pub facts: Vec<ResearchFact>,
    pub summary: String,
}

/// A planned segment within the project plan.
#[derive(Debug, Clone)]
pub struct PlannedSegment {
    pub segment_number: u32,
    pub title: String,
    pub duration_seconds: u32,
    pub description: String,
    pub visual_style: String,
}

/// What a [`PlannedSegment`] says.
pub struct PlannedSegmentView {
    pub segment_number: u32,
    pub title: Seq<char>,
    pub duration_seconds: u32,
    pub description: Seq<char>,
    pub visual_style: Seq<char>,
}

impl View for PlannedSegment {
    type V = PlannedSegmentView;

    open spec fn view(&self) -> PlannedSegmentView {
        PlannedSegmentView {
            segment_number: self.segment_number,
            title: self.title@,
            duration_seconds: self.duration_seconds,
            description: self.description@,
            visual_style: self.visual_style@,
        }
    }
}

/// Output of the planning stage: a structured project plan.
#[derive(Debug, Clone)]
pub struct ProjectPlan {
    pub job_id: String,
    pub title: String,
    pub synopsis: String,
    pub total_duration_seconds: u32,
    pub segments: Vec<PlannedSegment>,
    pub research_queries: Vec<String>,
    pub narration_tone: String,
}

/// What a [`ProjectPlan`] says.
pub struct ProjectPlanView {
    pub job_id: Seq<char>,
    pub title: Seq<char>,
    pub synopsis: Seq<char>,
    pub total_duration_seconds: u32,
    pub segments: Seq<PlannedSegmentView>,
    pub research_queries: Seq<Seq<char>>,
    pub narration_tone: Seq<char>,
}

impl View for ProjectPlan {
    type V = ProjectPlanView;

    open spec fn view(&self) -> ProjectPlanView {
        ProjectPlanView {
            job_id: self.job_id@,
            title: self.title@,
            synopsis: self.synopsis@,
            total_duration_seconds: self.total_duration_seconds,
            segments: self.segments@.map_values(|s: PlannedSegment| s@),
            research_queries: views(self.research_queries@),
            narration_tone: self.narration_tone@,
        }
    }
}

/// A single narration segment with timing and visual cues.
#[derive(Debug, Clone)]
pub struct ScriptSegment {
    pub segment_number: u32,
    pub title: String,
    pub narration_text: String,
    pub estimated_duration_seconds: u32,
    pub visual_notes: String,
}

/// Output of the script stage: full narration script with segments.
#[derive(Debug, Clone)]
pub struct NarrationScript {
    pub job_id: String,
    pub title: String,
    pub total_duration_seconds: u32,
    pub segments: Vec<ScriptSegment>,
}

/// The name tells the status: no two share one.
pub proof fn law_status_names_are_distinct(a: JobStatus, b: JobStatus)
    ensures
        a.name() == b.name() <==> a == b,
{
    reveal_strlit("Queued");
    reveal_strlit("Pending");
    reveal_strlit("Running");
    reveal_strlit("WaitingForReview");
    reveal_strlit("Completed");
    reveal_strlit("Failed");
    assert("Queued"@.len() == 6 && "Queued"@[0] == 'Q');
    assert("Pending"@.len() == 7 && "Pending"@[0] == 'P');
    assert("Running"@.len() == 7 && "Running"@[0] == 'R');
    assert("WaitingForReview"@.len() == 16);
    assert("Completed"@.len() == 9);
    assert("Failed"@.len() == 6 && "Failed"@[0] == 'F');
}

/// What counts of a [`PipelineJobRequest`] is what it holds, field by field.
pub proof fn law_requests_are_what_they_hold(request: PipelineJobRequest, i: int)
    ensures
        request@.title == request.title@,
        request@.idea == request.idea@,
        request@.audience == request.audience@,
        request@.target_duration_seconds == request.target_duration_seconds,
        request@.tone == request.tone@,
        request@.must_include.len() == request.must_include@.len(),
        0 <= i < request.must_include@.len() ==> request@.must_include[i] == request.must_include@[i]@,
        request@.must_avoid.len() == request.must_avoid@.len(),
        0 <= i < request.must_avoid@.len() ==> request@.must_avoid[i] == request.must_avoid@[i]@,
{
}

/// What counts of a [`PipelineJob`] is what it holds, field by field.
pub proof fn law_jobs_are_what_they_hold(job: PipelineJob)
    ensures
        job@.job_id == job.job_id@,
        job@.submitted_at == job.submitted_at,
        job@.status == job.status,
        job@.current_stage == job.current_stage,
        job@.request == job.request@,
{
}

/// What counts of a [`PlannedSegment`] is what it holds, field by field.
pub proof fn law_segments_are_what_they_hold(segment: PlannedSegment)
    ensures
        segment@.segment_number == segment.segment_number,
        segment@.title == segment.title@,
        segment@.duration_seconds == segment.duration_seconds,
        segment@.description == segment.description@,
        segment@.visual_style == segment.visual_style@,
{
}

/// What counts of a [`ProjectPlan`] is what it holds, field by field.
pub proof fn law_plans_are_what_they_hold(plan: ProjectPlan, i: int)
    ensures
        plan@.job_id == plan.job_id@,
        plan@.title == plan.title@,
        plan@.synopsis == plan.synopsis@,
        plan@.total_duration_seconds == plan.total_duration_seconds,
        plan@.segments.len() == plan.segments@.len(),
        0 <= i < plan.segments@.len() ==> plan@.segments[i] == plan.segments@[i]@,
        plan@.research_queries.len() == plan.research_queries@.len(),
        0 <= i < plan.research_queries@.len() ==> plan@.research_queries[i] == plan.research_queries@[i]@,
        plan@.narration_tone == plan.narration_tone@,
{
}

} // verus!
