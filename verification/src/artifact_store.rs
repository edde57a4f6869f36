//! Store of jobs, stage outputs and job events.

use crate::clock::now_rfc3339;
use crate::job_queue::lemma_filter_push;
use crate::json::{members_view, Json, JsonView};
use crate::pipeline_types::{JobStatus, JobView, PipelineJob, Stage};
use crate::text::{same_text, views};
use vstd::prelude::*;
use vstd::string::*;

verus! {

/// A line of a job's event log.
#[derive(Debug, Clone)]
pub struct JobEvent {
    pub job_id: String,
    pub timestamp: String,
    pub level: String,
    pub message: String,
}

/// What a [`JobEvent`] says.
pub struct EventView {
    pub job_id: Seq<char>,
    pub timestamp: Seq<char>,
    pub level: Seq<char>,
    pub message: Seq<char>,
}

impl View for JobEvent {
    type V = EventView;

    open spec fn view(&self) -> EventView {
        EventView {
            job_id: self.job_id@,
            timestamp: self.timestamp@,
            level: self.level@,
            message: self.message@,
        }
    }
}

impl JobEvent {
    /// A second line that says the same.
    pub fn copy(&self) -> (r: JobEvent)
        ensures
            r@ == self@,
    {
        JobEvent {
            job_id: self.job_id.clone(),
            timestamp: self.timestamp.clone(),
            level: self.level.clone(),
            message: self.message.clone(),
        }
    }
}

/// What a stage of a job has answered.
#[derive(Debug)]
pub struct StageOutput {
    pub job_id: String,
    pub stage: String,
    pub output: Json,
}

/// What a [`StageOutput`] says.
pub struct OutputView {
    pub job_id: Seq<char>,
    pub stage: Seq<char>,
    pub output: JsonView,
}

impl View for StageOutput {
    type V = OutputView;

    open spec fn view(&self) -> OutputView {
        OutputView { job_id: self.job_id@, stage: self.stage@, output: self.output@ }
    }
}

impl StageOutput {
    /// A second record of the same answer.
    pub fn copy(&self) -> (r: StageOutput)
        ensures
            r@ == self@,
    {
        StageOutput {
            job_id: self.job_id.clone(),
            stage: self.stage.clone(),
            output: self.output.copy(),
        }
    }
}

/// Jobs, in the order in which they were first saved, with their outputs and
/// events.
#[derive(Debug)]
pub struct ArtifactStore {
    pub jobs: Vec<PipelineJob>,
    pub outputs: Vec<StageOutput>,
    pub events: Vec<JobEvent>,
}

/// What an [`ArtifactStore`] holds.
#[verifier::ext_equal]
pub struct StoreView {
    pub jobs: Seq<JobView>,
    pub outputs: Seq<OutputView>,
    pub events: Seq<EventView>,
}

impl View for ArtifactStore {
    type V = StoreView;

    open spec fn view(&self) -> StoreView {
        StoreView {
            jobs: job_views(self.jobs@),
            outputs: output_views(self.outputs@),
            events: event_views(self.events@),
        }
    }
}

pub open spec fn job_views(jobs: Seq<PipelineJob>) -> Seq<JobView> {
    jobs.map_values(|j: PipelineJob| j@)
}

pub open spec fn output_views(outputs: Seq<StageOutput>) -> Seq<OutputView> {
    outputs.map_values(|o: StageOutput| o@)
}

pub open spec fn event_views(events: Seq<JobEvent>) -> Seq<EventView> {
    events.map_values(|e: JobEvent| e@)
}

/// Where the job of that name stands, from `i` on; the number of jobs, if
/// nowhere.
pub open spec fn job_place(jobs: Seq<JobView>, job_id: Seq<char>, i: int) -> int
    decreases jobs.len() - i,
{
    if i < 0 || i >= jobs.len() {
        jobs.len() as int
    } else if jobs[i].job_id == job_id {
        i
    } else {
        job_place(jobs, job_id, i + 1)
    }
}

/// Where the output of that job and stage stands, from `i` on; the number of
/// outputs, if nowhere.
pub open spec fn output_place(
    outputs: Seq<OutputView>,
    job_id: Seq<char>,
    stage: Seq<char>,
    i: int,
) -> int
    decreases outputs.len() - i,
{
    if i < 0 || i >= outputs.len() {
        outputs.len() as int
    } else if outputs[i].job_id == job_id && outputs[i].stage == stage {
        i
    } else {
        output_place(outputs, job_id, stage, i + 1)
    }
}

impl StoreView {
    /// No two jobs share a name, and no two outputs job and stage.
    pub open spec fn wf(self) -> bool {
        &&& forall|i: int, j: int|
            0 <= i < j < self.jobs.len() ==> (#[trigger] self.jobs[i]).job_id != (
            #[trigger] self.jobs[j]).job_id
        &&& forall|i: int, j: int|
            0 <= i < j < self.outputs.len() ==> (#[trigger] self.outputs[i]).job_id != (
            #[trigger] self.outputs[j]).job_id || self.outputs[i].stage != self.outputs[j].stage
    }

    /// The job of that name.
    pub open spec fn job(self, job_id: Seq<char>) -> Option<JobView> {
        let i = job_place(self.jobs, job_id, 0);
        if i < self.jobs.len() {
            Some(self.jobs[i])
        } else {
            None
        }
    }

    /// What that stage of the job has answered.
    pub open spec fn output(self, job_id: Seq<char>, stage: Seq<char>) -> Option<JsonView> {
        let i = output_place(self.outputs, job_id, stage, 0);
        if i < self.outputs.len() {
            Some(self.outputs[i].output)
        } else {
            None
        }
    }

    /// What the stages of the job have answered, in the order in which they
    /// first did.
    pub open spec fn outputs_of(self, job_id: Seq<char>) -> Seq<OutputView> {
        self.outputs.filter(|o: OutputView| o.job_id == job_id)
    }

    /// The event log of the job.
    pub open spec fn events_of(self, job_id: Seq<char>) -> Seq<EventView> {
        self.events.filter(|e: EventView| e.job_id == job_id)
    }

    /// The store with that job in place of the one of its name, or behind all
    /// others if there is none.
    pub open spec fn with_job(self, job: JobView) -> StoreView {
        let i = job_place(self.jobs, job.job_id, 0);
        if i < self.jobs.len() {
            StoreView { jobs: self.jobs.update(i, job), ..self }
        } else {
            StoreView { jobs: self.jobs.push(job), ..self }
        }
    }

    /// The store with another status for that job. Without the job it stays as
    /// it is.
    pub open spec fn with_status(
        self,
        job_id: Seq<char>,
        status: JobStatus,
        current_stage: Stage,
    ) -> StoreView {
        match self.job(job_id) {
            Some(job) => self.with_job(JobView { status, current_stage, ..job }),
            None => self,
        }
    }

    /// The store with that answer in place of an earlier one of the stage.
    pub open spec fn with_output(
        self,
        job_id: Seq<char>,
        stage: Seq<char>,
        output: JsonView,
    ) -> StoreView {
        let i = output_place(self.outputs, job_id, stage, 0);
        let o = OutputView { job_id, stage, output };
        if i < self.outputs.len() {
            StoreView { outputs: self.outputs.update(i, o), ..self }
        } else {
            StoreView { outputs: self.outputs.push(o), ..self }
        }
    }

    /// The store with one more event.
    pub open spec fn with_event(self, event: EventView) -> StoreView {
        StoreView { events: self.events.push(event), ..self }
    }

    /// The store without the job and all that belongs to it.
    pub open spec fn without_job(self, job_id: Seq<char>) -> StoreView {
        let i = job_place(self.jobs, job_id, 0);
        StoreView {
            jobs: if i < self.jobs.len() {
                self.jobs.remove(i)
            } else {
                self.jobs
            },
            outputs: self.outputs.filter(|o: OutputView| o.job_id != job_id),
            events: self.events.filter(|e: EventView| e.job_id != job_id),
        }
    }
}

pub proof fn lemma_job_place(jobs: Seq<JobView>, job_id: Seq<char>, i: int)
    requires
        0 <= i <= jobs.len(),
    ensures
        i <= job_place(jobs, job_id, i) <= jobs.len(),
        job_place(jobs, job_id, i) < jobs.len() ==> jobs[job_place(jobs, job_id, i)].job_id
            == job_id,
        forall|j: int|
            i <= j < job_place(jobs, job_id, i) ==> (#[trigger] jobs[j]).job_id != job_id,
    decreases jobs.len() - i,
{
    if i < jobs.len() && jobs[i].job_id != job_id {
        lemma_job_place(jobs, job_id, i + 1);
    }
}

pub proof fn lemma_output_place(
    outputs: Seq<OutputView>,
    job_id: Seq<char>,
    stage: Seq<char>,
    i: int,
)
    requires
        0 <= i <= outputs.len(),
    ensures
        i <= output_place(outputs, job_id, stage, i) <= outputs.len(),
        ({
            let k = output_place(outputs, job_id, stage, i);
            k < outputs.len() ==> outputs[k].job_id == job_id && outputs[k].stage == stage
        }),
        forall|j: int|
            i <= j < output_place(outputs, job_id, stage, i) ==> (#[trigger] outputs[j]).job_id
                != job_id || outputs[j].stage != stage,
    decreases outputs.len() - i,
{
    if i < outputs.len() && !(outputs[i].job_id == job_id && outputs[i].stage == stage) {
        lemma_output_place(outputs, job_id, stage, i + 1);
    }
}

proof fn lemma_filter_origin<T>(s: Seq<T>, keep: spec_fn(T) -> bool, x: T)
    requires
        s.filter(keep).contains(x),
    ensures
        s.contains(x),
        keep(x),
    decreases s.len(),
{
    reveal(Seq::filter);
    if s.len() > 0 {
        let rest = s.drop_last().filter(keep);
        if rest.contains(x) {
            lemma_filter_origin(s.drop_last(), keep, x);
            let i = choose|i: int| 0 <= i < s.drop_last().len() && s.drop_last()[i] == x;
            assert(s[i] == x);
        } else {
            assert(s[s.len() - 1] == x);
        }
    }
}

/// Leaving outputs out leaves the others distinct.
proof fn lemma_outputs_stay_distinct(v: StoreView, keep: spec_fn(OutputView) -> bool)
    requires
        v.wf(),
    ensures
        (StoreView { outputs: v.outputs.filter(keep), ..v }).wf(),
    decreases v.outputs.len(),
{
    reveal(Seq::filter);
    if v.outputs.len() > 0 {
        let n = v.outputs.len() - 1;
        let shorter = StoreView { outputs: v.outputs.drop_last(), ..v };
        assert(shorter.wf());
        lemma_outputs_stay_distinct(shorter, keep);
        let small = StoreView { outputs: shorter.outputs.filter(keep), ..v };
        assert(small.wf());
        let all = v.outputs.filter(keep);
        assert(all == if keep(v.outputs.last()) {
            small.outputs.push(v.outputs.last())
        } else {
            small.outputs
        });
        assert forall|i: int, j: int| 0 <= i < j < all.len() implies (#[trigger] all[i]).job_id
            != (#[trigger] all[j]).job_id || all[i].stage != all[j].stage by {
            assert(all[i] == small.outputs[i]);
            if j < small.outputs.len() {
                assert(all[j] == small.outputs[j]);
            } else {
                assert(all[j] == v.outputs[n]);
                assert(small.outputs.contains(all[i]));
                lemma_filter_origin(shorter.outputs, keep, all[i]);
                let k = choose|k: int|
                    0 <= k < shorter.outputs.len() && shorter.outputs[k] == all[i];
                assert(v.outputs[k] == all[i]);
            }
        }
    }
}

/// The stages that have answered.
pub open spec fn output_stages(outputs: Seq<OutputView>) -> Seq<Seq<char>> {
    outputs.map_values(|o: OutputView| o.stage)
}

/// The answers by stage.
pub open spec fn outputs_by_stage(outputs: Seq<OutputView>) -> Map<Seq<char>, JsonView>
    decreases outputs.len(),
{
    if outputs.len() == 0 {
        Map::empty()
    } else {
        outputs_by_stage(outputs.drop_last()).insert(outputs.last().stage, outputs.last().output)
    }
}

/// The stages that have answered.
pub fn stages_of(outputs: &Vec<StageOutput>) -> (r: Vec<String>)
    ensures
        views(r@) == output_stages(output_views(outputs@)),
{
    let mut r: Vec<String> = Vec::new();
    let mut i: usize = 0;
    while i < outputs.len()
        invariant
            i <= outputs@.len(),
            r@.len() == i,
            forall|j: int| 0 <= j < i ==> (#[trigger] r@[j])@ == outputs@[j].stage@,
        decreases outputs.len() - i,
    {
        r.push(outputs[i].stage.clone());
        i += 1;
    }
    assert(views(r@) =~= output_stages(output_views(outputs@)));
    r
}

/// The answers as the members of an object.
pub fn by_stage(outputs: &Vec<StageOutput>) -> (r: Vec<(String, Json)>)
    ensures
        members_view(r@) == outputs_by_stage(output_views(outputs@)),
{
    let ghost all = output_views(outputs@);
    let mut r: Vec<(String, Json)> = Vec::new();
    let mut i: usize = 0;
    while i < outputs.len()
        invariant
            i <= outputs@.len(),
            all == output_views(outputs@),
            members_view(r@) == outputs_by_stage(all.take(i as int)),
        decreases outputs.len() - i,
    {
        let ghost before = r@;
        r.push((outputs[i].stage.clone(), outputs[i].output.copy()));
        assert(r@.drop_last() =~= before);
        assert(all.take(i as int + 1).drop_last() =~= all.take(i as int));
        assert(all.take(i as int + 1).last() == all[i as int]);
        i += 1;
    }
    assert(all.take(i as int) =~= all);
    r
}

impl ArtifactStore {
    /// Whether no two jobs share a name, and no two outputs job and stage.
    pub open spec fn wf(self) -> bool {
        self@.wf()
    }

    /// A store without jobs.
    pub fn new() -> (r: ArtifactStore)
        ensures
            r.wf(),
            r@ == (StoreView {
                jobs: Seq::empty(),
                outputs: Seq::empty(),
                events: Seq::empty(),
            }),
    {
        let r = ArtifactStore { jobs: Vec::new(), outputs: Vec::new(), events: Vec::new() };
        assert(r@.jobs =~= Seq::empty());
        assert(r@.outputs =~= Seq::empty());
        assert(r@.events =~= Seq::empty());
        r
    }

    fn find_job(&self, job_id: &str) -> (r: usize)
        ensures
            r as int == job_place(self@.jobs, job_id@, 0),
            r <= self.jobs@.len(),
    {
        let mut i: usize = 0;
        while i < self.jobs.len()
            invariant
                i <= self.jobs@.len(),
                job_place(self@.jobs, job_id@, 0) == job_place(self@.jobs, job_id@, i as int),
            decreases self.jobs.len() - i,
        {
            assert(self@.jobs[i as int] == self.jobs@[i as int]@);
            if same_text(self.jobs[i].job_id.as_str(), job_id) {
                return i;
            }
            i += 1;
        }
        i
    }

    fn find_output(&self, job_id: &str, stage: &str) -> (r: usize)
        ensures
            r as int == output_place(self@.outputs, job_id@, stage@, 0),
            r <= self.outputs@.len(),
    {
        let mut i: usize = 0;
        while i < self.outputs.len()
            invariant
                i <= self.outputs@.len(),
                output_place(self@.outputs, job_id@, stage@, 0) == output_place(
                    self@.outputs,
                    job_id@,
                    stage@,
                    i as int,
                ),
            decreases self.outputs.len() - i,
        {
            assert(self@.outputs[i as int] == self.outputs@[i as int]@);
            if same_text(self.outputs[i].job_id.as_str(), job_id) && same_text(
                self.outputs[i].stage.as_str(),
                stage,
            ) {
                return i;
            }
            i += 1;
        }
        i
    }

    /// Save a job under its name. It takes the place of an earlier one of that
    /// name.
    pub fn save_job(&mut self, job: &PipelineJob)
        requires
            old(self).wf(),
        ensures
            final(self).wf(),
            final(self)@ == old(self)@.with_job(job@),
    {
        let ghost before = self@;
        let i = self.find_job(job.job_id.as_str());
        proof {
            lemma_job_place(before.jobs, job@.job_id, 0);
        }
        let copy = job.copy();
        if i < self.jobs.len() {
            self.jobs.set(i, copy);
        } else {
            self.jobs.push(copy);
        }
        assert(self@.jobs =~= before.with_job(job@).jobs);
    }

    /// The job of that name.
    pub fn get_job(&self, job_id: &str) -> (r: Option<PipelineJob>)
        ensures
            match r {
                Some(j) => self@.job(job_id@) == Some(j@),
                None => self@.job(job_id@) is None,
            },
    {
        let i = self.find_job(job_id);
        if i < self.jobs.len() {
            Some(self.jobs[i].copy())
        } else {
            None
        }
    }

    /// All jobs, in the order in which they were first saved.
    pub fn list_jobs(&self) -> (r: Vec<PipelineJob>)
        ensures
            job_views(r@) == self@.jobs,
    {
        let mut r: Vec<PipelineJob> = Vec::new();
        let mut i: usize = 0;
        while i < self.jobs.len()
            invariant
                i <= self.jobs@.len(),
                r@.len() == i,
                forall|j: int| 0 <= j < i ==> (#[trigger] r@[j])@ == self.jobs@[j]@,
            decreases self.jobs.len() - i,
        {
            r.push(self.jobs[i].copy());
            i += 1;
        }
        assert(job_views(r@) =~= self@.jobs);
        r
    }

    /// Set where a job stands. Nothing happens where there is no such job.
    pub fn update_job_status(&mut self, job_id: &str, status: &JobStatus, stage: &Stage)
        requires
            old(self).wf(),
        ensures
            final(self).wf(),
            final(self)@ == old(self)@.with_status(job_id@, *status, *stage),
    {
        let ghost before = self@;
        proof {
            lemma_job_place(before.jobs, job_id@, 0);
        }
        let i = self.find_job(job_id);
        if i < self.jobs.len() {
            let mut job = self.jobs[i].copy();
            job.status = *status;
            job.current_stage = *stage;
            self.save_job(&job);
        }
    }

    /// Remove a job with all that belongs to it; says whether it was there.
    pub fn delete_job(&mut self, job_id: &str) -> (r: bool)
        requires
            old(self).wf(),
        ensures
            final(self).wf(),
            final(self)@ == old(self)@.without_job(job_id@),
            r == old(self)@.job(job_id@) is Some,
    {
        let ghost before = self@;
        let ghost other = |o: OutputView| o.job_id != job_id@;
        let ghost foreign = |e: EventView| e.job_id != job_id@;
        let i = self.find_job(job_id);
        let mut outputs: Vec<StageOutput> = Vec::new();
        let mut k: usize = 0;
        assert(output_views(outputs@) =~= before.outputs.take(0).filter(other)) by {
            reveal(Seq::filter);
        }
        while k < self.outputs.len()
            invariant
                k <= self.outputs@.len(),
                self@ == before,
                *self == *old(self),
                other == (|o: OutputView| o.job_id != job_id@),
                output_views(outputs@) == before.outputs.take(k as int).filter(other),
            decreases self.outputs.len() - k,
        {
            let ghost so_far = outputs@;
            proof {
                lemma_filter_push(before.outputs.take(k as int), before.outputs[k as int], other);
                assert(before.outputs.take(k as int).push(before.outputs[k as int])
                    =~= before.outputs.take(k as int + 1));
            }
            if !same_text(self.outputs[k].job_id.as_str(), job_id) {
                let o = self.outputs[k].copy();
                outputs.push(o);
                assert(output_views(outputs@) =~= output_views(so_far).push(o@));
            }
            k += 1;
        }
        assert(before.outputs.take(k as int) =~= before.outputs);
        let mut events: Vec<JobEvent> = Vec::new();
        let mut n: usize = 0;
        assert(event_views(events@) =~= before.events.take(0).filter(foreign)) by {
            reveal(Seq::filter);
        }
        while n < self.events.len()
            invariant
                n <= self.events@.len(),
                self@ == before,
                *self == *old(self),
                foreign == (|e: EventView| e.job_id != job_id@),
                event_views(events@) == before.events.take(n as int).filter(foreign),
            decreases self.events.len() - n,
        {
            let ghost so_far = events@;
            proof {
                lemma_filter_push(before.events.take(n as int), before.events[n as int], foreign);
                assert(before.events.take(n as int).push(before.events[n as int])
                    =~= before.events.take(n as int + 1));
            }
            if !same_text(self.events[n].job_id.as_str(), job_id) {
                let e = self.events[n].copy();
                events.push(e);
                assert(event_views(events@) =~= event_views(so_far).push(e@));
            }
            n += 1;
        }
        assert(before.events.take(n as int) =~= before.events);
        let there = i < self.jobs.len();
        if there {
            self.jobs.remove(i);
        }
        self.outputs = outputs;
        self.events = events;
        proof {
            lemma_job_place(before.jobs, job_id@, 0);
            lemma_outputs_stay_distinct(before, other);
            assert(self@.jobs =~= before.without_job(job_id@).jobs);
        }
        there
    }

    /// Save what a stage has answered, in place of an earlier answer.
    pub fn save_stage_output(&mut self, job_id: &str, stage: &str, output: &Json)
        requires
            old(self).wf(),
        ensures
            final(self).wf(),
            final(self)@ == old(self)@.with_output(job_id@, stage@, output@),
    {
        let ghost before = self@;
        let i = self.find_output(job_id, stage);
        proof {
            lemma_output_place(before.outputs, job_id@, stage@, 0);
        }
        let o = StageOutput {
            job_id: job_id.to_string(),
            stage: stage.to_string(),
            output: output.copy(),
        };
        if i < self.outputs.len() {
            self.outputs.set(i, o);
        } else {
            self.outputs.push(o);
        }
        assert(self@.outputs =~= before.with_output(job_id@, stage@, output@).outputs);
    }

    /// What a stage of the job has answered.
    pub fn get_stage_output(&self, job_id: &str, stage: &str) -> (r: Option<Json>)
        ensures
            match r {
                Some(o) => self@.output(job_id@, stage@) == Some(o@),
                None => self@.output(job_id@, stage@) is None,
            },
    {
        let i = self.find_output(job_id, stage);
        if i < self.outputs.len() {
            Some(self.outputs[i].output.copy())
        } else {
            None
        }
    }

    /// What the stages of the job have answered.
    pub fn list_stage_outputs(&self, job_id: &str) -> (r: Vec<StageOutput>)
        ensures
            output_views(r@) == self@.outputs_of(job_id@),
    {
        let ghost all = self@.outputs;
        let ghost own = |o: OutputView| o.job_id == job_id@;
        let mut r: Vec<StageOutput> = Vec::new();
        let mut i: usize = 0;
        assert(output_views(r@) =~= all.take(0).filter(own)) by {
            reveal(Seq::filter);
        }
        while i < self.outputs.len()
            invariant
                i <= self.outputs@.len(),
                all == self@.outputs,
                own == (|o: OutputView| o.job_id == job_id@),
                output_views(r@) == all.take(i as int).filter(own),
            decreases self.outputs.len() - i,
        {
            let ghost so_far = r@;
            proof {
                lemma_filter_push(all.take(i as int), all[i as int], own);
                assert(all.take(i as int).push(all[i as int]) =~= all.take(i as int + 1));
            }
            if same_text(self.outputs[i].job_id.as_str(), job_id) {
                let o = self.outputs[i].copy();
                r.push(o);
                assert(output_views(r@) =~= output_views(so_far).push(o@));
            }
            i += 1;
        }
        assert(all.take(i as int) =~= all);
        r
    }

    /// Add a line to the event log of a job, as of the given time.
    pub fn append_event_at(&mut self, job_id: &str, timestamp: String, level: &str, message: &str)
        requires
            old(self).wf(),
        ensures
            final(self).wf(),
            final(self)@ == old(self)@.with_event(
                EventView {
                    job_id: job_id@,
                    timestamp: timestamp@,
                    level: level@,
                    message: message@,
                },
            ),
    {
        let ghost before = self@;
        let e = JobEvent {
            job_id: job_id.to_string(),
            timestamp,
            level: level.to_string(),
            message: message.to_string(),
        };
        self.events.push(e);
        assert(self@.events =~= before.events.push(e@));
    }

    /// Add a line to the event log of a job, as of now.
    pub fn append_event(&mut self, job_id: &str, level: &str, message: &str)
        requires
            old(self).wf(),
        ensures
            final(self).wf(),
            exists|at: Seq<char>|
                #![trigger old(self)@.with_event(
                    EventView { job_id: job_id@, timestamp: at, level: level@, message: message@ },
                )]
                final(self)@ == old(self)@.with_event(
                    EventView { job_id: job_id@, timestamp: at, level: level@, message: message@ },
                ),
    {
        let at = now_rfc3339();
        self.append_event_at(job_id, at, level, message);
    }

    /// The event log of the job.
    pub fn list_events(&self, job_id: &str) -> (r: Vec<JobEvent>)
        ensures
            event_views(r@) == self@.events_of(job_id@),
    {
        let ghost all = self@.events;
        let ghost own = |e: EventView| e.job_id == job_id@;
        let mut r: Vec<JobEvent> = Vec::new();
        let mut i: usize = 0;
        assert(event_views(r@) =~= all.take(0).filter(own)) by {
            reveal(Seq::filter);
        }
        while i < self.events.len()
            invariant
                i <= self.events@.len(),
                all == self@.events,
                own == (|e: EventView| e.job_id == job_id@),
                event_views(r@) == all.take(i as int).filter(own),
            decreases self.events.len() - i,
        {
            let ghost so_far = r@;
            proof {
                lemma_filter_push(all.take(i as int), all[i as int], own);
                assert(all.take(i as int).push(all[i as int]) =~= all.take(i as int + 1));
            }
            if same_text(self.events[i].job_id.as_str(), job_id) {
                let e = self.events[i].copy();
                r.push(e);
                assert(event_views(r@) =~= event_views(so_far).push(e@));
            }
            i += 1;
        }
        assert(all.take(i as int) =~= all);
        r
    }
}

// ---------------------------------------------------------------------------
// Laws
// ---------------------------------------------------------------------------

/// A read gives back what was last written under the name, and a write leaves
/// the other jobs alone.
pub proof fn law_saved_jobs_are_read_back(v: StoreView, job: JobView, other: Seq<char>)
    requires
        v.wf(),
    ensures
        v.with_job(job).job(job.job_id) == Some(job),
        other != job.job_id ==> v.with_job(job).job(other) == v.job(other),
{
    let w = v.with_job(job);
    lemma_job_place(v.jobs, job.job_id, 0);
    lemma_job_place(w.jobs, job.job_id, 0);
    let k = job_place(v.jobs, job.job_id, 0);
    let i = job_place(w.jobs, job.job_id, 0);
    assert(w.jobs[k] == job);
    if i < k {
        assert(w.jobs[i] == v.jobs[i]);
    }
    assert(i == k);
    if other != job.job_id {
        lemma_job_place(v.jobs, other, 0);
        lemma_job_place(w.jobs, other, 0);
        let a = job_place(v.jobs, other, 0);
        let b = job_place(w.jobs, other, 0);
        assert(forall|j: int| 0 <= j < v.jobs.len() && j != k ==> w.jobs[j] == v.jobs[j]);
        if a < b {
            if a < v.jobs.len() {
                assert(w.jobs[a] == v.jobs[a]);
            }
        } else if b < a {
            assert(w.jobs[b] == v.jobs[b]);
        }
    }
}

/// A job that was saved is among those that are listed.
pub proof fn law_saved_jobs_are_listed(v: StoreView, job: JobView)
    ensures
        v.with_job(job).jobs.contains(job),
{
    lemma_job_place(v.jobs, job.job_id, 0);
    let k = job_place(v.jobs, job.job_id, 0);
    assert(v.with_job(job).jobs[k] == job);
}

/// A status update changes status and stage of that job and nothing else.
pub proof fn law_status_updates_touch_one_job(
    v: StoreView,
    job_id: Seq<char>,
    status: JobStatus,
    stage: Stage,
    other: Seq<char>,
)
    requires
        v.wf(),
    ensures
        ({
            let w = v.with_status(job_id, status, stage);
            &&& v.job(job_id) is None ==> w == v
            &&& v.job(job_id) matches Some(job) ==> w.job(job_id) == Some(
                JobView { status, current_stage: stage, ..job },
            )
            &&& other != job_id ==> w.job(other) == v.job(other)
            &&& w.outputs == v.outputs
            &&& w.events == v.events
            &&& w.jobs.len() == v.jobs.len()
        }),
{
    lemma_job_place(v.jobs, job_id, 0);
    if v.job(job_id) is Some {
        law_saved_jobs_are_read_back(
            v,
            JobView { status, current_stage: stage, ..v.job(job_id)->0 },
            other,
        );
    }
}

/// A read gives back what was last written for the job and the stage, and a
/// write leaves all other outputs alone.
pub proof fn law_saved_outputs_are_read_back(
    v: StoreView,
    job_id: Seq<char>,
    stage: Seq<char>,
    output: JsonView,
    other_job: Seq<char>,
    other_stage: Seq<char>,
)
    requires
        v.wf(),
    ensures
        v.with_output(job_id, stage, output).output(job_id, stage) == Some(output),
        other_job != job_id || other_stage != stage ==> v.with_output(
            job_id,
            stage,
            output,
        ).output(other_job, other_stage) == v.output(other_job, other_stage),
{
    let w = v.with_output(job_id, stage, output);
    lemma_output_place(v.outputs, job_id, stage, 0);
    lemma_output_place(w.outputs, job_id, stage, 0);
    let k = output_place(v.outputs, job_id, stage, 0);
    let i = output_place(w.outputs, job_id, stage, 0);
    assert(w.outputs[k] == (OutputView { job_id, stage, output }));
    if i < k {
        assert(w.outputs[i] == v.outputs[i]);
    }
    assert(i == k);
    if other_job != job_id || other_stage != stage {
        lemma_output_place(v.outputs, other_job, other_stage, 0);
        lemma_output_place(w.outputs, other_job, other_stage, 0);
        let a = output_place(v.outputs, other_job, other_stage, 0);
        let b = output_place(w.outputs, other_job, other_stage, 0);
        assert(forall|j: int| 0 <= j < v.outputs.len() && j != k ==> w.outputs[j] == v.outputs[j]);
        if a < b {
            if a < v.outputs.len() {
                assert(w.outputs[a] == v.outputs[a]);
            }
        } else if b < a {
            assert(w.outputs[b] == v.outputs[b]);
        }
    }
}

/// A deleted job is gone with all its outputs and events, and what belongs to
/// other jobs stays.
pub proof fn law_deleted_jobs_leave_nothing(v: StoreView, job_id: Seq<char>, other: Seq<char>)
    requires
        v.wf(),
    ensures
        v.without_job(job_id).job(job_id) is None,
        v.without_job(job_id).outputs_of(job_id).len() == 0,
        v.without_job(job_id).events_of(job_id).len() == 0,
        other != job_id ==> v.without_job(job_id).job(other) == v.job(other),
        other != job_id ==> v.without_job(job_id).outputs_of(other) == v.outputs_of(other),
        other != job_id ==> v.without_job(job_id).events_of(other) == v.events_of(other),
{
    let w = v.without_job(job_id);
    let k = job_place(v.jobs, job_id, 0);
    lemma_job_place(v.jobs, job_id, 0);
    lemma_job_place(w.jobs, job_id, 0);
    if k < v.jobs.len() {
        assert(forall|j: int| 0 <= j < k ==> w.jobs[j] == v.jobs[j]);
        assert(forall|j: int| k <= j < w.jobs.len() ==> w.jobs[j] == v.jobs[j + 1]);
    }
    let i = job_place(w.jobs, job_id, 0);
    if i < w.jobs.len() {
        if i >= k {
            assert(w.jobs[i] == v.jobs[i + 1]);
            assert(v.jobs[k].job_id != v.jobs[i + 1].job_id);
        } else {
            assert(w.jobs[i] == v.jobs[i]);
        }
    }
    lemma_twice_filtered(
        v.outputs,
        |o: OutputView| o.job_id != job_id,
        |o: OutputView| o.job_id == job_id,
    );
    lemma_twice_filtered(
        v.events,
        |e: EventView| e.job_id != job_id,
        |e: EventView| e.job_id == job_id,
    );
    if other != job_id {
        lemma_twice_filtered(
            v.outputs,
            |o: OutputView| o.job_id != job_id,
            |o: OutputView| o.job_id == other,
        );
        lemma_twice_filtered(
            v.events,
            |e: EventView| e.job_id != job_id,
            |e: EventView| e.job_id == other,
        );
        lemma_job_place(v.jobs, other, 0);
        lemma_job_place(w.jobs, other, 0);
        let a = job_place(v.jobs, other, 0);
        let b = job_place(w.jobs, other, 0);
        if k < v.jobs.len() {
            if a < v.jobs.len() {
                if a < k {
                    assert(w.jobs[a] == v.jobs[a]);
                } else {
                    assert(w.jobs[a - 1] == v.jobs[a]);
                }
            }
            if b < w.jobs.len() {
                if b < k {
                    assert(w.jobs[b] == v.jobs[b]);
                } else {
                    assert(w.jobs[b] == v.jobs[b + 1]);
                }
            }
            lemma_same_job(v, a, b, k, other);
        }
    }
}

/// Two places of one name are one place.
proof fn lemma_same_job(v: StoreView, a: int, b: int, k: int, other: Seq<char>)
    requires
        v.wf(),
        0 <= k < v.jobs.len(),
        v.jobs[k].job_id != other,
        0 <= a <= v.jobs.len(),
        0 <= b < v.jobs.len(),
        a == job_place(v.jobs, other, 0),
        b == job_place(v.jobs.remove(k), other, 0),
    ensures
        b == if a < k {
            a
        } else {
            a - 1
        },
{
    let rest = v.jobs.remove(k);
    lemma_job_place(v.jobs, other, 0);
    lemma_job_place(rest, other, 0);
    assert(forall|j: int| 0 <= j < k ==> rest[j] == v.jobs[j]);
    assert(forall|j: int| k <= j < rest.len() ==> rest[j] == v.jobs[j + 1]);
    if a < k {
        assert(rest[a].job_id == other);
        if b < a {
            assert(rest[b] == v.jobs[b]);
        }
    } else {
        if a < v.jobs.len() {
            assert(rest[a - 1].job_id == other);
        }
        if b < a - 1 {
            if b < k {
                assert(rest[b] == v.jobs[b]);
            } else {
                assert(rest[b] == v.jobs[b + 1]);
            }
        }
    }
}

/// What is left of a sequence after two filters, where the second lets only
/// through what the first keeps, or nothing of it.
proof fn lemma_twice_filtered<T>(s: Seq<T>, first: spec_fn(T) -> bool, second: spec_fn(T) -> bool)
    requires
        (forall|x: T| #[trigger] second(x) ==> first(x)) || (forall|x: T| #[trigger] second(x) ==> !first(x)),
    ensures
        (forall|x: T| #[trigger] second(x) ==> first(x)) ==> s.filter(first).filter(second) == s.filter(
            second,
        ),
        (forall|x: T| #[trigger] second(x) ==> !first(x)) ==> s.filter(first).filter(second).len() == 0,
    decreases s.len(),
{
    reveal(Seq::filter);
    if s.len() > 0 {
        let rest = s.drop_last();
        lemma_twice_filtered(rest, first, second);
        assert(s =~= rest.push(s.last()));
        lemma_filter_push(rest, s.last(), first);
        lemma_filter_push(rest, s.last(), second);
        lemma_filter_push(rest.filter(first), s.last(), second);
    }
}

/// The answers of a job by stage are what is read back of each stage.
pub proof fn law_outputs_by_stage(v: StoreView, job_id: Seq<char>, stage: Seq<char>)
    requires
        v.wf(),
    ensures
        match v.output(job_id, stage) {
            Some(output) => outputs_by_stage(v.outputs_of(job_id)).contains_key(stage)
                && outputs_by_stage(v.outputs_of(job_id))[stage] == output,
            None => !outputs_by_stage(v.outputs_of(job_id)).contains_key(stage),
        },
    decreases v.outputs.len(),
{
    let own = |o: OutputView| o.job_id == job_id;
    lemma_output_place(v.outputs, job_id, stage, 0);
    reveal(Seq::filter);
    if v.outputs.len() > 0 {
        let shorter = StoreView { outputs: v.outputs.drop_last(), ..v };
        let n = v.outputs.len() - 1;
        let last = v.outputs[n];
        assert(shorter.wf());
        law_outputs_by_stage(shorter, job_id, stage);
        lemma_output_place(shorter.outputs, job_id, stage, 0);
        let a = output_place(v.outputs, job_id, stage, 0);
        let b = output_place(shorter.outputs, job_id, stage, 0);
        assert(forall|j: int| 0 <= j < n ==> shorter.outputs[j] == v.outputs[j]);
        if b < n {
            assert(v.outputs[b].stage == stage);
            assert(a == b);
            if last.job_id == job_id {
                assert(last.stage != stage);
            }
        } else if last.job_id == job_id && last.stage == stage {
            if a < n {
                assert(shorter.outputs[a].stage == stage);
            }
            assert(a == n);
        } else if a < n {
            assert(shorter.outputs[a].stage == stage);
        }
        assert(v.outputs =~= shorter.outputs.push(last));
        lemma_filter_push(shorter.outputs, last, own);
        if last.job_id == job_id {
            assert(v.outputs_of(job_id).drop_last() =~= shorter.outputs_of(job_id));
        }
    }
}

/// Events are read back in the order in which they were added.
pub proof fn law_events_are_read_back_in_order(v: StoreView, event: EventView, other: Seq<char>)
    ensures
        v.with_event(event).events_of(event.job_id) == v.events_of(event.job_id).push(event),
        other != event.job_id ==> v.with_event(event).events_of(other) == v.events_of(other),
{
    lemma_filter_push(v.events, event, |e: EventView| e.job_id == event.job_id);
    lemma_filter_push(v.events, event, |e: EventView| e.job_id == other);
}

/// What counts of a [`JobEvent`] is what it holds, field by field.
pub proof fn law_events_are_what_they_hold(event: JobEvent)
    ensures
        event@.job_id == event.job_id@,
        event@.timestamp == event.timestamp@,
        event@.level == event.level@,
        event@.message == event.message@,
{
}

/// What counts of a [`StageOutput`] is what it holds, field by field.
pub proof fn law_outputs_are_what_they_hold(output: StageOutput)
    ensures
        output@.job_id == output.job_id@,
        output@.stage == output.stage@,
        output@.output == output.output@,
{
}

/// What counts of an [`ArtifactStore`] is what it holds, field by field.
pub proof fn law_stores_are_what_they_hold(store: ArtifactStore, i: int)
    ensures
        store@.jobs.len() == store.jobs@.len(),
        0 <= i < store.jobs@.len() ==> store@.jobs[i] == store.jobs@[i]@,
        store@.outputs.len() == store.outputs@.len(),
        0 <= i < store.outputs@.len() ==> store@.outputs[i] == store.outputs@[i]@,
        store@.events.len() == store.events@.len(),
        0 <= i < store.events@.len() ==> store@.events[i] == store.events@[i]@,
{
}

/// A job that is saved takes the place of the one of its name, or stands behind
/// all others where there is none; all else is as it was.
pub proof fn law_saved_jobs_keep_their_place(v: StoreView, job: JobView, i: int)
    requires
        v.wf(),
    ensures
        v.with_job(job).outputs == v.outputs,
        v.with_job(job).events == v.events,
        (forall|k: int| 0 <= k < v.jobs.len() ==> (#[trigger] v.jobs[k]).job_id != job.job_id)
            ==> v.with_job(job).jobs == v.jobs.push(job),
        0 <= i < v.jobs.len() && v.jobs[i].job_id == job.job_id ==> v.with_job(job).jobs
            == v.jobs.update(i, job),
{
    lemma_job_place(v.jobs, job.job_id, 0);
}

/// A job is found by its name, and none under a name that no job has.
pub proof fn law_jobs_are_found_by_name(v: StoreView, job_id: Seq<char>, i: int)
    requires
        v.wf(),
    ensures
        0 <= i < v.jobs.len() && v.jobs[i].job_id == job_id ==> v.job(job_id) == Some(v.jobs[i]),
        (forall|k: int| 0 <= k < v.jobs.len() ==> (#[trigger] v.jobs[k]).job_id != job_id)
            <==> v.job(job_id) is None,
{
    lemma_job_place(v.jobs, job_id, 0);
}

/// A change of status changes the status and the stage of the job of that name
/// and nothing else.
pub proof fn law_status_is_all_that_changes(
    v: StoreView,
    job_id: Seq<char>,
    status: JobStatus,
    stage: Stage,
    i: int,
)
    requires
        v.wf(),
        0 <= i < v.jobs.len(),
    ensures
        ({
            let after = v.with_status(job_id, status, stage);
            &&& after.outputs == v.outputs
            &&& after.events == v.events
            &&& after.jobs.len() == v.jobs.len()
            &&& after.jobs[i].job_id == v.jobs[i].job_id
            &&& after.jobs[i].submitted_at == v.jobs[i].submitted_at
            &&& after.jobs[i].request == v.jobs[i].request
            &&& v.jobs[i].job_id == job_id ==> after.jobs[i].status == status
                && after.jobs[i].current_stage == stage
            &&& v.jobs[i].job_id != job_id ==> after.jobs[i] == v.jobs[i]
        }),
{
    lemma_job_place(v.jobs, job_id, 0);
}

/// An answer that is saved takes the place of the earlier one of its job and
/// stage, or stands behind all others; all else is as it was.
pub proof fn law_saved_outputs_keep_their_place(
    v: StoreView,
    job_id: Seq<char>,
    stage: Seq<char>,
    output: JsonView,
    i: int,
)
    requires
        v.wf(),
    ensures
        ({
            let after = v.with_output(job_id, stage, output);
            let n = v.outputs.len() as int;
            &&& after.jobs == v.jobs
            &&& after.events == v.events
            &&& (forall|k: int|
                0 <= k < n ==> (#[trigger] v.outputs[k]).job_id != job_id || v.outputs[k].stage
                    != stage) ==> {
                &&& after.outputs.len() == n + 1
                &&& after.outputs[n].job_id == job_id
                &&& after.outputs[n].stage == stage
                &&& after.outputs[n].output == output
            }
            &&& 0 <= i < n && v.outputs[i].job_id == job_id && v.outputs[i].stage == stage ==> {
                &&& after.outputs.len() == n
                &&& after.outputs[i].job_id == job_id
                &&& after.outputs[i].stage == stage
                &&& after.outputs[i].output == output
            }
            &&& 0 <= i < n && !(v.outputs[i].job_id == job_id && v.outputs[i].stage == stage)
                ==> after.outputs[i] == v.outputs[i]
        }),
{
    lemma_output_place(v.outputs, job_id, stage, 0);
}

/// The answers and the events of a job are all those that are stored under its
/// name, in the order in which they are stored.
pub proof fn law_a_job_has_what_is_under_its_name(
    v: StoreView,
    job_id: Seq<char>,
    output: OutputView,
    event: EventView,
)
    ensures
        (StoreView { outputs: Seq::empty(), ..v }).outputs_of(job_id).len() == 0,
        (StoreView { outputs: v.outputs.push(output), ..v }).outputs_of(job_id)
            == if output.job_id == job_id {
            v.outputs_of(job_id).push(output)
        } else {
            v.outputs_of(job_id)
        },
        (StoreView { events: Seq::empty(), ..v }).events_of(job_id).len() == 0,
        (StoreView { events: v.events.push(event), ..v }).events_of(job_id)
            == if event.job_id == job_id {
            v.events_of(job_id).push(event)
        } else {
            v.events_of(job_id)
        },
{
    lemma_filter_push(v.outputs, output, |o: OutputView| o.job_id == job_id);
    lemma_filter_push(v.events, event, |e: EventView| e.job_id == job_id);
    reveal(Seq::filter);
}

/// Deleting a job leaves the others in their order, and of answers and events
/// all that are not under its name, in their order.
pub proof fn law_deleting_leaves_the_rest_in_order(
    v: StoreView,
    job_id: Seq<char>,
    output: OutputView,
    event: EventView,
    i: int,
)
    requires
        v.wf(),
    ensures
        (forall|k: int| 0 <= k < v.jobs.len() ==> (#[trigger] v.jobs[k]).job_id != job_id)
            ==> v.without_job(job_id).jobs == v.jobs,
        0 <= i < v.jobs.len() && v.jobs[i].job_id == job_id ==> v.without_job(job_id).jobs
            == v.jobs.take(i) + v.jobs.skip(i + 1),
        (StoreView { outputs: Seq::empty(), ..v }).without_job(job_id).outputs.len() == 0,
        (StoreView { outputs: v.outputs.push(output), ..v }).without_job(job_id).outputs
            == if output.job_id == job_id {
            v.without_job(job_id).outputs
        } else {
            v.without_job(job_id).outputs.push(output)
        },
        (StoreView { events: Seq::empty(), ..v }).without_job(job_id).events.len() == 0,
        (StoreView { events: v.events.push(event), ..v }).without_job(job_id).events
            == if event.job_id == job_id {
            v.without_job(job_id).events
        } else {
            v.without_job(job_id).events.push(event)
        },
{
    lemma_job_place(v.jobs, job_id, 0);
    if 0 <= i < v.jobs.len() && v.jobs[i].job_id == job_id {
        assert(v.jobs.remove(i) =~= v.jobs.take(i) + v.jobs.skip(i + 1));
    }
    lemma_filter_push(v.outputs, output, |o: OutputView| o.job_id != job_id);
    lemma_filter_push(v.events, event, |e: EventView| e.job_id != job_id);
    reveal(Seq::filter);
}

/// The stages that have answered are those of the answers, one for one.
pub proof fn law_stages_of_answers(outputs: Seq<OutputView>, i: int)
    ensures
        output_stages(outputs).len() == outputs.len(),
        0 <= i < outputs.len() ==> output_stages(outputs)[i] == outputs[i].stage,
{
}

} // verus!
