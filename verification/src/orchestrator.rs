//! Orchestrator: polls the job queue and drives each job through the pipeline
//! stages by calling downstream services.
//!
//! All dispatches are serialized: only one service call is in flight at any
//! time. When a service is unreachable the queue entry is returned to the queue
//! and the job is marked `Pending`, so that it is retried on a future poll cycle
//! once the service comes back up.

use crate::artifact_store::{
    law_saved_jobs_are_read_back, law_status_updates_touch_one_job, lemma_job_place,
    outputs_by_stage, EventView, StoreView,
};
use crate::dispatch::{
    begun, check_health, dispatch_stage, dispatched, health_fault, law_answered_stages_complete,
    law_dispatch_keeps_other_outputs, law_dispatch_touches_one_job,
    law_down_services_change_nothing, next_queued, parse_stage, parsed_stage, result_view, success,
    DispatchOutcome, HttpStatus, HttpStatusView, OutcomeView, Replies, RepliesView,
};
use crate::gateway::{law_retried_jobs_wait_at_their_stage, new_job, AppState, StateView};
use crate::job_queue::{
    first_free, law_acknowledged_entries_are_gone, law_claimed_entries_are_not_handed_out_again,
    lemma_first_free, EntryView, JobQueue, QueueEntry, QueueView, RowView,
};
use crate::json::{holds, items_view, Json, JsonView};
use crate::pipeline_types::{
    law_minimal_pipeline_order, law_only_terminal_stages_end, law_stage_names_are_distinct,
    law_stages_are_found_by_name, mvp_stages, JobStatus, JobView, RequestView, Stage, Timestamp,
};
use crate::registry::{
    health_url, max_attempts, max_attempts_for_stage, mvp_names, stage_names, text_view,
    ServiceRegistry,
};
use crate::settings::{
    law_defaults_stand_in, number_setting, number_with_default, setting_of,
};
use crate::stage_request::stage_body;
use crate::text::{decimal, decimal_text, plus};
use vstd::prelude::*;
use vstd::string::*;

verus! {

/// How the orchestrator polls.
#[derive(Debug, Clone, Copy, PartialEq, Eq, Structural)]
pub struct PollConfig {
    /// Seconds between two looks at an empty queue.
    pub poll_interval: u64,
    /// Seconds to wait when a service is down: longer, to avoid log spam.
    pub unavailable_backoff: u64,
    /// How often an entry is retried before its job is marked as failed.
    pub default_max_attempts: u32,
}

/// How many seconds pass between two looks at a queue that is empty.
pub open spec fn poll_interval_in(vars: Seq<(String, String)>) -> nat {
    number_setting(vars, "POLL_INTERVAL_SECS"@, u64::MAX as nat, 5)
}

/// How many seconds pass before the next attempt where a service is down.
pub open spec fn backoff_in(vars: Seq<(String, String)>) -> nat {
    number_setting(vars, "UNAVAILABLE_BACKOFF_SECS"@, u64::MAX as nat, 15)
}

/// How often a stage is tried, unless it is set apart.
pub open spec fn attempts_in(vars: Seq<(String, String)>) -> nat {
    number_setting(vars, "MAX_RETRY_ATTEMPTS"@, u32::MAX as nat, 50)
}

impl PollConfig {
    /// The configuration that the variables ask for.
    pub fn from_env(vars: &Vec<(String, String)>) -> (r: PollConfig)
        ensures
            r.poll_interval as nat == poll_interval_in(vars@),
            r.unavailable_backoff as nat == backoff_in(vars@),
            r.default_max_attempts as nat == attempts_in(vars@),
    {
        let attempts: u64 = number_with_default(
            vars,
            "MAX_RETRY_ATTEMPTS",
            u32::MAX as u64,
            50,
        );
        PollConfig {
            poll_interval: number_with_default(vars, "POLL_INTERVAL_SECS", u64::MAX, 5),
            unavailable_backoff: number_with_default(
                vars,
                "UNAVAILABLE_BACKOFF_SECS",
                u64::MAX,
                15,
            ),
            default_max_attempts: attempts as u32,
        }
    }
}

/// Something to do for a queue entry.
#[derive(Debug)]
pub enum Effect {
    /// Add a line to the job's event log.
    Log { level: String, message: String },
    /// Set where the job stands.
    SetStatus(JobStatus, Stage),
    /// Remove the entry from the queue.
    Acknowledge,
    /// Return the entry to the queue.
    Nack,
    /// Queue the job for that stage.
    Enqueue(String),
    /// Wait for so many seconds.
    Sleep(u64),
}

/// What an [`Effect`] says.
pub enum EffectView {
    Log { level: Seq<char>, message: Seq<char> },
    SetStatus(JobStatus, Stage),
    Acknowledge,
    Nack,
    Enqueue(Seq<char>),
    Sleep(u64),
}

impl View for Effect {
    type V = EffectView;

    open spec fn view(&self) -> EffectView {
        match self {
            Effect::Log { level, message } => EffectView::Log { level: level@, message: message@ },
            Effect::SetStatus(status, stage) => EffectView::SetStatus(*status, *stage),
            Effect::Acknowledge => EffectView::Acknowledge,
            Effect::Nack => EffectView::Nack,
            Effect::Enqueue(stage) => EffectView::Enqueue(stage@),
            Effect::Sleep(seconds) => EffectView::Sleep(*seconds),
        }
    }
}

impl Effect {
    /// A second effect that says the same.
    pub fn copy(&self) -> (r: Effect)
        ensures
            r@ == self@,
    {
        match self {
            Effect::Log { level, message } => Effect::Log {
                level: level.clone(),
                message: message.clone(),
            },
            Effect::SetStatus(status, stage) => Effect::SetStatus(*status, *stage),
            Effect::Acknowledge => Effect::Acknowledge,
            Effect::Nack => Effect::Nack,
            Effect::Enqueue(stage) => Effect::Enqueue(stage.clone()),
            Effect::Sleep(seconds) => Effect::Sleep(*seconds),
        }
    }
}

pub open spec fn effect_views(effects: Seq<Effect>) -> Seq<EffectView> {
    effects.map_values(|e: Effect| e@)
}

/// What the next look at the queue leads to.
#[derive(Debug)]
pub enum Poll {
    /// The service is shutting down.
    Stop,
    /// Nothing to do for so many seconds.
    Wait(u64),
    /// The entry is to be dispatched, after its effect.
    Start(QueueEntry, Effect),
}

/// What a [`Poll`] says.
pub enum PollView {
    Stop,
    Wait(u64),
    Start(EntryView, EffectView),
}

impl View for Poll {
    type V = PollView;

    open spec fn view(&self) -> PollView {
        match self {
            Poll::Stop => PollView::Stop,
            Poll::Wait(seconds) => PollView::Wait(*seconds),
            Poll::Start(entry, effect) => PollView::Start(entry@, effect@),
        }
    }
}

/// The effect with which the dispatch of an entry starts.
pub open spec fn announced(entry: EntryView) -> EffectView {
    EffectView::Log { level: "info"@, message: "dispatching stage "@ + entry.stage }
}

/// Look at the queue and claim the oldest entry, unless the service is shutting
/// down.
pub fn poll(shutting_down: bool, queue: &mut JobQueue, config: &PollConfig) -> (r: Poll)
    requires
        old(queue).wf(),
    ensures
        final(queue).wf(),
        if shutting_down {
            r is Stop && final(queue)@ == old(queue)@
        } else {
            &&& final(queue)@ == old(queue)@.dequeued()
            &&& match old(queue)@.next_entry() {
                None => r matches Poll::Wait(seconds) && seconds == config.poll_interval,
                Some(entry) => r matches Poll::Start(e, effect) && e@ == entry && effect@
                    == announced(entry),
            }
        },
{
    if shutting_down {
        return Poll::Stop;
    }
    match queue.dequeue() {
        Some(entry) => {
            let message = plus("dispatching stage ".to_string(), entry.stage.as_str());
            Poll::Start(entry, Effect::Log { level: "info".to_string(), message })
        },
        None => Poll::Wait(config.poll_interval),
    }
}

/// The stage at which a job fails: the one that was dispatched. Only a text that
/// names no stage leaves none but `Failed`.
pub open spec fn failed_at(stage: Seq<char>) -> Stage {
    match parsed_stage(stage) {
        Some(s) => s,
        None => Stage::Failed,
    }
}

/// What is to be done for an entry after its dispatch.
pub open spec fn settled(
    entry: EntryView,
    outcome: OutcomeView,
    max_attempts: nat,
    backoff: u64,
) -> Seq<EffectView> {
    match outcome {
        OutcomeView::Completed(next) => {
            let done = seq![
                EffectView::Log {
                    level: "info"@,
                    message: "stage "@ + entry.stage + " completed"@,
                },
                EffectView::Acknowledge,
            ];
            match next {
                Some(next) => done.push(EffectView::Enqueue(next.name())),
                None => done,
            }
        },
        OutcomeView::ServiceUnavailable(reason) => {
            let log = EffectView::Log {
                level: "warn"@,
                message: "stage "@ + entry.stage + " service unavailable (attempt "@ + decimal(
                    (entry.attempts + 1) as nat,
                ) + "): "@ + reason,
            };
            if entry.attempts >= max_attempts {
                seq![
                    log,
                    EffectView::SetStatus(JobStatus::Failed, failed_at(entry.stage)),
                    EffectView::Acknowledge,
                ]
            } else {
                match parsed_stage(entry.stage) {
                    Some(stage) => seq![
                        log,
                        EffectView::SetStatus(JobStatus::Pending, stage),
                        EffectView::Nack,
                        EffectView::Sleep(backoff),
                    ],
                    None => seq![log, EffectView::Nack, EffectView::Sleep(backoff)],
                }
            }
        },
        OutcomeView::Failed(reason) => seq![
            EffectView::Log {
                level: "error"@,
                message: "stage "@ + entry.stage + " failed: "@ + reason,
            },
            EffectView::SetStatus(JobStatus::Failed, failed_at(entry.stage)),
            EffectView::Acknowledge,
        ],
    }
}

fn failing_stage(stage: &str) -> (r: Stage)
    ensures
        r == failed_at(stage@),
{
    match parse_stage(stage) {
        Some(current) => current,
        None => Stage::Failed,
    }
}

/// Decide what is to be done for an entry after its dispatch. A job fails at the
/// stage that was dispatched, so that a retry takes it up there.
pub fn settle(
    entry: &QueueEntry,
    outcome: &DispatchOutcome,
    config: &PollConfig,
    vars: &Vec<(String, String)>,
) -> (r: Vec<Effect>)
    ensures
        effect_views(r@) == settled(
            entry@,
            outcome@,
            max_attempts(entry.stage@, config.default_max_attempts, vars@),
            config.unavailable_backoff,
        ),
{
    let stage = entry.stage.as_str();
    let ghost goal = settled(
        entry@,
        outcome@,
        max_attempts(entry.stage@, config.default_max_attempts, vars@),
        config.unavailable_backoff,
    );
    let mut r: Vec<Effect> = Vec::new();
    match outcome {
        DispatchOutcome::Completed(next) => {
            let message = plus(plus("stage ".to_string(), stage), " completed");
            r.push(Effect::Log { level: "info".to_string(), message });
            r.push(Effect::Acknowledge);
            match next {
                Some(next) => {
                    r.push(Effect::Enqueue(next.to_string()));
                },
                None => {},
            }
        },
        DispatchOutcome::ServiceUnavailable(reason) => {
            let attempt = decimal_text(entry.attempts as u64 + 1);
            let message = plus(
                plus(
                    plus(
                        plus(
                            plus("stage ".to_string(), stage),
                            " service unavailable (attempt ",
                        ),
                        attempt.as_str(),
                    ),
                    "): ",
                ),
                reason.as_str(),
            );
            r.push(Effect::Log { level: "warn".to_string(), message });
            let limit = max_attempts_for_stage(stage, config.default_max_attempts, vars);
            if entry.attempts >= limit {
                r.push(Effect::SetStatus(JobStatus::Failed, failing_stage(stage)));
                r.push(Effect::Acknowledge);
            } else {
                match parse_stage(stage) {
                    Some(current) => {
                        r.push(Effect::SetStatus(JobStatus::Pending, current));
                    },
                    None => {},
                }
                r.push(Effect::Nack);
                r.push(Effect::Sleep(config.unavailable_backoff));
            }
        },
        DispatchOutcome::Failed(reason) => {
            let message = plus(plus(plus("stage ".to_string(), stage), " failed: "), reason.as_str());
            r.push(Effect::Log { level: "error".to_string(), message });
            r.push(Effect::SetStatus(JobStatus::Failed, failing_stage(stage)));
            r.push(Effect::Acknowledge);
        },
    }
    assert(effect_views(r@) =~= goal);
    r
}

/// The state after an effect for an entry, at the given time. The queue may
/// have no room for another entry: then none is added.
pub open spec fn applied(
    v: StateView,
    entry: EntryView,
    effect: EffectView,
    at: Seq<char>,
) -> StateView {
    match effect {
        EffectView::Log { level, message } => StateView {
            store: v.store.with_event(
                EventView { job_id: entry.job_id, timestamp: at, level, message },
            ),
            ..v
        },
        EffectView::SetStatus(status, stage) => StateView {
            store: v.store.with_status(entry.job_id, status, stage),
            ..v
        },
        EffectView::Acknowledge => StateView { queue: v.queue.acknowledged(entry.entry_id), ..v },
        EffectView::Nack => StateView { queue: v.queue.nacked(entry.entry_id), ..v },
        EffectView::Enqueue(stage) => if v.has_room() {
            StateView { queue: v.queue.enqueued(entry.job_id, stage, at), ..v }
        } else {
            v
        },
        EffectView::Sleep(_) => v,
    }
}

/// The state after some effects, one after the other.
pub open spec fn all_applied(
    v: StateView,
    entry: EntryView,
    effects: Seq<EffectView>,
    at: Seq<char>,
) -> StateView
    decreases effects.len(),
{
    if effects.len() == 0 {
        v
    } else {
        applied(all_applied(v, entry, effects.drop_last(), at), entry, effects.last(), at)
    }
}

/// Carry out an effect for an entry, at the given time.
pub fn apply(state: &mut AppState, entry: &QueueEntry, effect: &Effect, at: &str)
    requires
        old(state).wf(),
    ensures
        final(state).wf(),
        final(state)@ == applied(old(state)@, entry@, effect@, at@),
{
    let job_id = entry.job_id.as_str();
    match effect {
        Effect::Log { level, message } => {
            state.store.append_event_at(job_id, at.to_string(), level.as_str(), message.as_str());
        },
        Effect::SetStatus(status, stage) => {
            state.store.update_job_status(job_id, status, stage);
        },
        Effect::Acknowledge => {
            state.queue.acknowledge(entry.entry_id);
        },
        Effect::Nack => {
            state.queue.nack(entry.entry_id);
        },
        Effect::Enqueue(stage) => {
            let _ = state.queue.enqueue_at(job_id, stage.as_str(), at.to_string());
        },
        Effect::Sleep(_) => {},
    }
}

/// Carry out effects for an entry one after the other, at the given time.
pub fn apply_all(state: &mut AppState, entry: &QueueEntry, effects: &Vec<Effect>, at: &str)
    requires
        old(state).wf(),
    ensures
        final(state).wf(),
        final(state)@ == all_applied(old(state)@, entry@, effect_views(effects@), at@),
{
    let ghost before = state@;
    let ghost all = effect_views(effects@);
    let mut i: usize = 0;
    while i < effects.len()
        invariant
            i <= effects@.len(),
            state.wf(),
            all == effect_views(effects@),
            state@ == all_applied(before, entry@, all.take(i as int), at@),
        decreases effects.len() - i,
    {
        apply(state, entry, &effects[i], at);
        assert(all.take(i as int + 1).drop_last() =~= all.take(i as int));
        assert(all.take(i as int + 1).last() == effects@[i as int]@);
        i += 1;
    }
    assert(all.take(i as int) =~= all);
}

/// The state after the oldest entry was claimed, announced, dispatched and
/// settled, all at the given time, where the service answers in that way.
pub open spec fn processed(
    v: StateView,
    urls: Map<Seq<char>, Seq<char>>,
    max_attempts: nat,
    backoff: u64,
    parse_error: Seq<char>,
    replies: RepliesView,
    at: Seq<char>,
) -> StateView {
    match v.queue.next_entry() {
        None => v,
        Some(entry) => {
            let claimed = StateView { queue: v.queue.dequeued(), ..v };
            let started = applied(claimed, entry, announced(entry), at);
            let (store, outcome) = dispatched(
                urls,
                started.store,
                entry.job_id,
                entry.stage,
                parse_error,
                replies,
            );
            all_applied(
                StateView { store, ..started },
                entry,
                settled(entry, outcome, max_attempts, backoff),
                at,
            )
        },
    }
}

/// One turn of the poll loop on a state at hand: claim the oldest entry,
/// dispatch it to a service that answers in the given way, and settle it. Says
/// whether there was an entry.
pub fn poll_once(
    state: &mut AppState,
    registry: &ServiceRegistry,
    config: &PollConfig,
    vars: &Vec<(String, String)>,
    parse_error: &str,
    replies: &Replies,
    at: &str,
) -> (r: bool)
    requires
        old(state).wf(),
    ensures
        final(state).wf(),
        r == old(state)@.queue.next_entry() is Some,
        !r ==> final(state)@ == old(state)@,
        old(state)@.queue.next_entry() matches Some(entry) ==> final(state)@ == processed(
            old(state)@,
            registry@,
            max_attempts(entry.stage, config.default_max_attempts, vars@),
            config.unavailable_backoff,
            parse_error@,
            replies@,
            at@,
        ),
{
    match poll(false, &mut state.queue, config) {
        Poll::Start(entry, announcement) => {
            apply(state, &entry, &announcement, at);
            let outcome = dispatch_stage(
                registry,
                &mut state.store,
                entry.job_id.as_str(),
                entry.stage.as_str(),
                parse_error,
                replies,
            );
            let effects = settle(&entry, &outcome, config, vars);
            apply_all(state, &entry, &effects, at);
            true
        },
        _ => false,
    }
}

/// Whether a service is up.
#[derive(Debug)]
pub struct ServiceHealth {
    pub name: String,
    pub url: String,
    pub healthy: bool,
    pub error: Option<String>,
}

/// What the orchestrator says of itself.
#[derive(Debug)]
pub struct OrchestratorStatus {
    pub running: bool,
    pub pending_jobs: usize,
    pub services: Vec<ServiceHealth>,
}

/// What a [`ServiceHealth`] says.
pub struct HealthView {
    pub name: Seq<char>,
    pub url: Seq<char>,
    pub healthy: bool,
    pub error: Option<Seq<char>>,
}

impl View for ServiceHealth {
    type V = HealthView;

    open spec fn view(&self) -> HealthView {
        HealthView {
            name: self.name@,
            url: self.url@,
            healthy: self.healthy,
            error: text_view(self.error),
        }
    }
}

impl HealthView {
    /// The member for the error is left out where there is none.
    pub open spec fn body(self) -> JsonView {
        let up = map![
            "name"@ => JsonView::Text(self.name),
            "url"@ => JsonView::Text(self.url),
            "healthy"@ => JsonView::Bool(self.healthy),
        ];
        match self.error {
            Some(e) => JsonView::Object(up.insert("error"@, JsonView::Text(e))),
            None => JsonView::Object(up),
        }
    }
}

impl ServiceHealth {
    /// The record as JSON. The member for the error is left out where there is
    /// none.
    pub fn body(&self) -> (r: Json)
        ensures
            r@ == self@.body(),
    {
        let up = Json::object().with("name", Json::text(self.name.as_str())).with(
            "url",
            Json::text(self.url.as_str()),
        ).with("healthy", Json::Bool(self.healthy));
        match &self.error {
            Some(e) => up.with("error", Json::text(e.as_str())),
            None => up,
        }
    }
}

/// The report of the orchestrator as JSON.
pub open spec fn status_json(
    running: bool,
    pending_jobs: usize,
    services: Seq<ServiceHealth>,
) -> JsonView {
    JsonView::Object(
        map![
            "running"@ => JsonView::Bool(running),
            "pending_jobs"@ => JsonView::Unsigned(pending_jobs as u64),
            "services"@ => JsonView::Array(services.map_values(|s: ServiceHealth| s@.body())),
        ],
    )
}

impl OrchestratorStatus {
    /// The report as JSON.
    pub fn body(&self) -> (r: Json)
        ensures
            r@ == status_json(self.running, self.pending_jobs, self.services@),
    {
        let mut items: Vec<Json> = Vec::new();
        let mut i: usize = 0;
        while i < self.services.len()
            invariant
                i <= self.services@.len(),
                items@.len() == i,
                forall|j: int| 0 <= j < i ==> (#[trigger] items@[j])@ == self.services@[j]@.body(),
            decreases self.services.len() - i,
        {
            items.push(self.services[i].body());
            i += 1;
        }
        assert(items_view(items@) =~= self.services@.map_values(|s: ServiceHealth| s@.body()));
        Json::object().with("running", Json::Bool(self.running)).with(
            "pending_jobs",
            Json::Unsigned(self.pending_jobs as u64),
        ).with("services", Json::array(items))
    }
}

/// The services to be probed for a report: each stage of the minimal pipeline
/// whose address is known, with its URL.
pub open spec fn targets(urls: Map<Seq<char>, Seq<char>>, names: Seq<Seq<char>>) -> Seq<
    (Seq<char>, Seq<char>),
>
    decreases names.len(),
{
    if names.len() == 0 {
        Seq::empty()
    } else {
        let rest = targets(urls, names.drop_last());
        match health_url(urls, names.last()) {
            Some(url) => rest.push((names.last(), url)),
            None => rest,
        }
    }
}

/// The services to be probed for a report, by name and URL.
pub fn probe_targets(registry: &ServiceRegistry) -> (r: Vec<(String, String)>)
    ensures
        r@.map_values(|p: (String, String)| (p.0@, p.1@)) == targets(registry@, mvp_names()),
{
    let names = stage_names();
    let mut r: Vec<(String, String)> = Vec::new();
    let mut i: usize = 0;
    let ghost pair = |p: (String, String)| (p.0@, p.1@);
    assert(r@.map_values(pair) =~= targets(registry@, mvp_names().take(0)));
    while i < names.len()
        invariant
            i <= names@.len(),
            names@.len() == mvp_names().len(),
            forall|j: int| 0 <= j < names@.len() ==> (#[trigger] names@[j])@ == mvp_names()[j],
            pair == (|p: (String, String)| (p.0@, p.1@)),
            r@.map_values(pair) == targets(registry@, mvp_names().take(i as int)),
        decreases names.len() - i,
    {
        let name = names[i];
        let ghost before = r@;
        assert(mvp_names().take(i as int + 1).drop_last() =~= mvp_names().take(i as int));
        assert(mvp_names().take(i as int + 1).last() == name@);
        match registry.healthz_url(name) {
            Some(url) => {
                let p = (name.to_string(), url);
                r.push(p);
                assert(r@.map_values(pair) =~= before.map_values(pair).push((p.0@, p.1@)));
            },
            None => {},
        }
        i += 1;
    }
    assert(mvp_names().take(i as int) =~= mvp_names());
    r
}

/// What a probe of a service says of it.
pub open spec fn health_of(
    name: Seq<char>,
    url: Seq<char>,
    reply: Result<HttpStatusView, Seq<char>>,
) -> HealthView {
    HealthView { name, url, healthy: health_fault(reply) is None, error: health_fault(reply) }
}

/// The record of a service from its answer to a probe.
pub fn service_health(name: &str, url: &str, reply: &Result<HttpStatus, String>) -> (r:
    ServiceHealth)
    ensures
        r@ == health_of(name@, url@, result_view(*reply)),
{
    let (healthy, error) = match check_health(reply) {
        Ok(_) => (true, None),
        Err(e) => (false, Some(e)),
    };
    ServiceHealth { name: name.to_string(), url: url.to_string(), healthy, error }
}

/// The report of the orchestrator. Where the waiting entries could not be
/// counted, it gives none.
pub fn status(pending: Option<usize>, services: Vec<ServiceHealth>) -> (r: OrchestratorStatus)
    ensures
        r.running,
        r.pending_jobs == match pending {
            Some(n) => n,
            None => 0,
        },
        r.services == services,
{
    let pending_jobs: usize = match pending {
        Some(n) => n,
        None => 0,
    };
    OrchestratorStatus { running: true, pending_jobs, services }
}

// ---------------------------------------------------------------------------
// Laws
// ---------------------------------------------------------------------------

/// The event that tells how a dispatch went.
pub open spec fn report(entry: EntryView, effects: Seq<EffectView>, at: Seq<char>) -> EventView {
    EventView {
        job_id: entry.job_id,
        timestamp: at,
        level: effects[0]->level,
        message: effects[0]->message,
    }
}

/// A completed stage leaves the queue, and the next one, if there is one, joins
/// it behind all others.
pub proof fn law_completed_entries_make_room_for_the_next(
    v: StateView,
    entry: EntryView,
    next: Option<Stage>,
    max_attempts: nat,
    backoff: u64,
    at: Seq<char>,
)
    requires
        v.wf(),
        next is Some ==> v.has_room(),
    ensures
        ({
            let effects = settled(entry, OutcomeView::Completed(next), max_attempts, backoff);
            let gone = v.queue.acknowledged(entry.entry_id);
            all_applied(v, entry, effects, at) == (StateView {
                store: v.store.with_event(report(entry, effects, at)),
                queue: match next {
                    Some(stage) => gone.enqueued(entry.job_id, stage.name(), at),
                    None => gone,
                },
            })
        }),
{
    reveal_with_fuel(all_applied, 4);
}

/// An entry whose service is down goes back to the queue, with one more
/// attempt, and its job is held pending at its stage.
pub proof fn law_unavailable_entries_go_back(
    v: StateView,
    entry: EntryView,
    reason: Seq<char>,
    stage: Stage,
    max_attempts: nat,
    backoff: u64,
    at: Seq<char>,
)
    requires
        v.wf(),
        entry.attempts < max_attempts,
        parsed_stage(entry.stage) == Some(stage),
    ensures
        ({
            let effects = settled(
                entry,
                OutcomeView::ServiceUnavailable(reason),
                max_attempts,
                backoff,
            );
            all_applied(v, entry, effects, at) == (StateView {
                store: v.store.with_event(report(entry, effects, at)).with_status(
                    entry.job_id,
                    JobStatus::Pending,
                    stage,
                ),
                queue: v.queue.nacked(entry.entry_id),
            })
        }),
{
    reveal_with_fuel(all_applied, 5);
}

/// An entry whose dispatch failed, or whose service was down too often, leaves
/// the queue, and its job is marked as failed at the stage of the entry.
pub proof fn law_failed_entries_end_their_job(
    v: StateView,
    entry: EntryView,
    outcome: OutcomeView,
    max_attempts: nat,
    backoff: u64,
    at: Seq<char>,
)
    requires
        v.wf(),
        outcome is Failed || (outcome is ServiceUnavailable && entry.attempts >= max_attempts),
    ensures
        ({
            let effects = settled(entry, outcome, max_attempts, backoff);
            let after = all_applied(v, entry, effects, at);
            &&& after == (StateView {
                store: v.store.with_event(report(entry, effects, at)).with_status(
                    entry.job_id,
                    JobStatus::Failed,
                    failed_at(entry.stage),
                ),
                queue: v.queue.acknowledged(entry.entry_id),
            })
            &&& v.store.job(entry.job_id) is Some ==> after.may_retry(entry.job_id)
        }),
{
    let effects = settled(entry, outcome, max_attempts, backoff);
    reveal_with_fuel(all_applied, 4);
    let logged = v.store.with_event(report(entry, effects, at));
    assert(logged.wf());
    law_status_updates_touch_one_job(
        logged,
        entry.job_id,
        JobStatus::Failed,
        failed_at(entry.stage),
        entry.job_id,
    );
}

/// A retry takes up the stage that failed: once a failed dispatch of a stage is
/// settled, a retry of the job is accepted, sets it back to queued at that
/// stage, and adds an entry for that stage to the queue, which the next dispatch
/// reads as that stage.
pub proof fn law_retries_take_up_the_failed_stage(
    v: StateView,
    entry: EntryView,
    outcome: OutcomeView,
    stage: Stage,
    max_attempts: nat,
    backoff: u64,
    at: Seq<char>,
    retried_at: Seq<char>,
)
    requires
        v.wf(),
        v.has_room(),
        v.store.job(entry.job_id) is Some,
        parsed_stage(entry.stage) == Some(stage),
        outcome is Failed || (outcome is ServiceUnavailable && entry.attempts >= max_attempts),
    ensures
        ({
            let id = entry.job_id;
            let failed = all_applied(
                v,
                entry,
                settled(entry, outcome, max_attempts, backoff),
                at,
            );
            let job = failed.store.job(id)->0;
            let again = failed.retried(id, job.current_stage, retried_at);
            &&& failed.may_retry(id)
            &&& failed.has_room()
            &&& job.current_stage == stage
            &&& again.queue == failed.queue.enqueued(id, stage.name(), retried_at)
            &&& again.queue.rows.last().entry.job_id == id
            &&& again.queue.rows.last().entry.stage == stage.name()
            &&& !again.queue.rows.last().claimed
            &&& again.store.job(id) == Some(
                JobView {
                    status: JobStatus::Queued,
                    current_stage: stage,
                    ..v.store.job(id)->0
                },
            )
            &&& parsed_stage(stage.name()) == Some(stage)
        }),
{
    let id = entry.job_id;
    let effects = settled(entry, outcome, max_attempts, backoff);
    let failed = all_applied(v, entry, effects, at);
    law_failed_entries_end_their_job(v, entry, outcome, max_attempts, backoff, at);
    let logged = v.store.with_event(report(entry, effects, at));
    assert(logged.wf());
    assert(logged.job(id) == v.store.job(id));
    law_status_updates_touch_one_job(logged, id, JobStatus::Failed, stage, id);
    lemma_job_place(logged.jobs, id, 0);
    assert(failed.store.wf());
    law_acknowledged_entries_are_gone(v.queue, entry.entry_id);
    law_retried_jobs_wait_at_their_stage(failed, id, retried_at);
    law_stages_are_found_by_name(stage);
}

/// A service that stays down cannot hold a job for ever: each time an entry
/// goes back its attempts rise by one, and at the limit its job fails.
pub proof fn law_retries_are_bounded(
    v: StateView,
    i: int,
    reason: Seq<char>,
    stage: Stage,
    max_attempts: nat,
    backoff: u64,
    at: Seq<char>,
)
    requires
        v.wf(),
        0 <= i < v.queue.rows.len(),
        parsed_stage(v.queue.rows[i].entry.stage) == Some(stage),
        max_attempts <= u32::MAX,
    ensures
        ({
            let entry = v.queue.rows[i].entry;
            let effects = settled(
                entry,
                OutcomeView::ServiceUnavailable(reason),
                max_attempts,
                backoff,
            );
            let after = all_applied(v, entry, effects, at);
            if entry.attempts < max_attempts {
                &&& after.queue.rows[i].entry == (EntryView {
                    attempts: (entry.attempts + 1) as u32,
                    ..entry
                })
                &&& !after.queue.rows[i].claimed
            } else {
                forall|r: RowView| #[trigger]
                    after.queue.rows.contains(r) ==> r.entry.entry_id != entry.entry_id
            }
        }),
{
    let entry = v.queue.rows[i].entry;
    if entry.attempts < max_attempts {
        law_unavailable_entries_go_back(v, entry, reason, stage, max_attempts, backoff, at);
    } else {
        law_failed_entries_end_their_job(
            v,
            entry,
            OutcomeView::ServiceUnavailable(reason),
            max_attempts,
            backoff,
            at,
        );
        law_acknowledged_entries_are_gone(v.queue, entry.entry_id);
    }
}

/// One turn of the poll loop moves a job one stage on, where the service
/// answers: the answer is saved, the job stands at the next stage, its old
/// entry is gone, and an entry for the next stage waits in the queue, unless the
/// job is complete.
pub proof fn law_each_turn_moves_a_job_on(
    v: StateView,
    urls: Map<Seq<char>, Seq<char>>,
    max_attempts: nat,
    backoff: u64,
    parse_error: Seq<char>,
    replies: RepliesView,
    at: Seq<char>,
    current: Stage,
    output: JsonView,
)
    requires
        v.wf(),
        current.next() != Some(Stage::Complete) ==> v.has_room(),
        v.queue.next_entry() is Some,
        mvp_names().contains(v.queue.next_entry()->0.stage),
        parsed_stage(v.queue.next_entry()->0.stage) == Some(current),
        !current.terminal(),
        urls.contains_key(v.queue.next_entry()->0.stage),
        v.store.job(v.queue.next_entry()->0.job_id) is Some,
        health_fault(replies.health) is None,
        replies.call matches Ok(status) && success(status.code),
        replies.body == Ok::<JsonView, Seq<char>>(output),
    ensures
        ({
            let entry = v.queue.next_entry()->0;
            let after = processed(v, urls, max_attempts, backoff, parse_error, replies, at);
            let next = current.next()->0;
            let gone = v.queue.dequeued().acknowledged(entry.entry_id);
            &&& after.wf()
            &&& after.store.output(entry.job_id, entry.stage) == Some(output)
            &&& forall|stage: Seq<char>|
                stage != entry.stage ==> #[trigger] after.store.output(entry.job_id, stage)
                    == v.store.output(entry.job_id, stage)
            &&& after.store.job(entry.job_id) == Some(
                JobView {
                    status: if next == Stage::Complete {
                        JobStatus::Completed
                    } else {
                        JobStatus::Running
                    },
                    current_stage: next,
                    ..v.store.job(entry.job_id)->0
                },
            )
            &&& after.queue == if next == Stage::Complete {
                gone
            } else {
                gone.enqueued(entry.job_id, next.name(), at)
            }
        }),
{
    let entry = v.queue.next_entry()->0;
    let claimed = StateView { queue: v.queue.dequeued(), ..v };
    let started = applied(claimed, entry, announced(entry), at);
    law_only_terminal_stages_end(current);
    law_claimed_entries_are_not_handed_out_again(v.queue);
    assert(started.store.wf());
    assert(started.store.job(entry.job_id) == v.store.job(entry.job_id));
    lemma_minimal_stages_have_a_body(
        entry.stage,
        started.store.with_status(entry.job_id, JobStatus::Running, current).job(entry.job_id)->0,
        outputs_by_stage(started.store.outputs_of(entry.job_id)),
    );
    law_answered_stages_complete(
        urls,
        started.store,
        entry.job_id,
        entry.stage,
        parse_error,
        replies,
        current,
        output,
    );
    let (store, outcome) = dispatched(
        urls,
        started.store,
        entry.job_id,
        entry.stage,
        parse_error,
        replies,
    );
    lemma_dispatch_keeps_wf(urls, started.store, entry.job_id, entry.stage, parse_error, replies);
    law_completed_entries_make_room_for_the_next(
        StateView { store, ..started },
        entry,
        next_queued(current),
        max_attempts,
        backoff,
        at,
    );
    law_acknowledged_entries_are_gone(started.queue, entry.entry_id);
    let after = processed(v, urls, max_attempts, backoff, parse_error, replies, at);
    let d = begun(urls, entry.job_id, entry.stage, parse_error)->Ok_0;
    assert forall|stage: Seq<char>| stage != entry.stage implies #[trigger] after.store.output(
        entry.job_id,
        stage,
    ) == v.store.output(entry.job_id, stage) by {
        law_dispatch_keeps_other_outputs(d, started.store, replies, entry.job_id, stage);
    }
}

/// The state after so many turns of the poll loop.
pub open spec fn after_turns(
    v: StateView,
    urls: Map<Seq<char>, Seq<char>>,
    max_attempts: nat,
    backoff: u64,
    parse_error: Seq<char>,
    replies: RepliesView,
    at: Seq<char>,
    n: nat,
) -> StateView
    decreases n,
{
    if n == 0 {
        v
    } else {
        processed(
            after_turns(
                v,
                urls,
                max_attempts,
                backoff,
                parse_error,
                replies,
                at,
                (n - 1) as nat,
            ),
            urls,
            max_attempts,
            backoff,
            parse_error,
            replies,
            at,
        )
    }
}

/// A job that is created while nothing else waits runs through the whole
/// pipeline, where its services answer: after one turn for each stage of the
/// minimal pipeline it is complete, with the answer of each stage saved, and
/// nothing waits any more.
pub proof fn law_created_jobs_run_to_completion(
    v: StateView,
    req: RequestView,
    id: Seq<char>,
    time: Timestamp,
    urls: Map<Seq<char>, Seq<char>>,
    max_attempts: nat,
    backoff: u64,
    parse_error: Seq<char>,
    replies: RepliesView,
    at: Seq<char>,
    output: JsonView,
)
    requires
        v.wf(),
        v.queue.next_entry() is None,
        v.queue.last_id <= i64::MAX - 8,
        forall|stage: Seq<char>| #[trigger] mvp_names().contains(stage) ==> urls.contains_key(
            stage,
        ),
        health_fault(replies.health) is None,
        replies.call matches Ok(status) && success(status.code),
        replies.body == Ok::<JsonView, Seq<char>>(output),
    ensures
        ({
            let job = new_job(req, id, time);
            let done = after_turns(
                v.created(job, at),
                urls,
                max_attempts,
                backoff,
                parse_error,
                replies,
                at,
                8,
            );
            &&& done.store.job(id) == Some(
                JobView { status: JobStatus::Completed, current_stage: Stage::Complete, ..job },
            )
            &&& done.queue.next_entry() is None
            &&& forall|i: int|
                0 <= i < 8 ==> done.store.output(id, #[trigger] mvp_names()[i]) == Some(output)
        }),
{
    let job = new_job(req, id, time);
    let w = v.created(job, at);
    lemma_job_place(v.store.jobs, id, 0);
    law_saved_jobs_are_read_back(v.store, job, id);
    lemma_only_the_last_waits(v.queue, id, "Planning"@, at);
    assert(w.store.wf());
    assert(w.queue.rows.last().entry.stage == mvp_names()[0]);
    assert(w.store.job(id) == Some(job));
    lemma_turns(w, job, urls, max_attempts, backoff, parse_error, replies, at, output, 8);
}

/// Where a job stands after so many turns, as the only one that waits.
pub open spec fn on_its_way(v: StateView, job: JobView, output: JsonView, i: int) -> bool {
    &&& v.wf()
    &&& v.store.job(job.job_id) matches Some(j) && j == (JobView {
        status: j.status,
        current_stage: j.current_stage,
        ..job
    })
    &&& forall|k: int|
        0 <= k < i ==> v.store.output(job.job_id, #[trigger] mvp_names()[k]) == Some(output)
    &&& if i < 8 {
        &&& v.queue.rows.len() > 0
        &&& first_free(v.queue.rows, 0) == Some(v.queue.rows.len() - 1)
        &&& v.queue.rows.last().entry.job_id == job.job_id
        &&& v.queue.rows.last().entry.stage == mvp_names()[i]
        &&& v.queue.last_id <= i64::MAX - 7 + i
    } else {
        &&& v.queue.next_entry() is None
        &&& v.store.job(job.job_id)->0.status == JobStatus::Completed
        &&& v.store.job(job.job_id)->0.current_stage == Stage::Complete
    }
}

proof fn lemma_turns(
    v: StateView,
    job: JobView,
    urls: Map<Seq<char>, Seq<char>>,
    max_attempts: nat,
    backoff: u64,
    parse_error: Seq<char>,
    replies: RepliesView,
    at: Seq<char>,
    output: JsonView,
    n: nat,
)
    requires
        on_its_way(v, job, output, 0),
        n <= 8,
        forall|stage: Seq<char>| #[trigger] mvp_names().contains(stage) ==> urls.contains_key(
            stage,
        ),
        health_fault(replies.health) is None,
        replies.call matches Ok(status) && success(status.code),
        replies.body == Ok::<JsonView, Seq<char>>(output),
    ensures
        on_its_way(
            after_turns(v, urls, max_attempts, backoff, parse_error, replies, at, n),
            job,
            output,
            n as int,
        ),
    decreases n,
{
    if n > 0 {
        let i = (n - 1) as nat;
        lemma_turns(v, job, urls, max_attempts, backoff, parse_error, replies, at, output, i);
        let u = after_turns(v, urls, max_attempts, backoff, parse_error, replies, at, i);
        lemma_turn(
            u,
            job,
            urls,
            max_attempts,
            backoff,
            parse_error,
            replies,
            at,
            output,
            i as int,
        );
    }
}

proof fn lemma_turn(
    v: StateView,
    job: JobView,
    urls: Map<Seq<char>, Seq<char>>,
    max_attempts: nat,
    backoff: u64,
    parse_error: Seq<char>,
    replies: RepliesView,
    at: Seq<char>,
    output: JsonView,
    i: int,
)
    requires
        on_its_way(v, job, output, i),
        0 <= i < 8,
        forall|stage: Seq<char>| #[trigger] mvp_names().contains(stage) ==> urls.contains_key(
            stage,
        ),
        health_fault(replies.health) is None,
        replies.call matches Ok(status) && success(status.code),
        replies.body == Ok::<JsonView, Seq<char>>(output),
    ensures
        on_its_way(
            processed(v, urls, max_attempts, backoff, parse_error, replies, at),
            job,
            output,
            i + 1,
        ),
{
    let current = mvp_stages()[i];
    let entry = v.queue.rows.last().entry;
    assert(v.queue.next_entry() == Some(entry));
    assert(mvp_names()[i] == current.name());
    assert(mvp_names().contains(entry.stage));
    law_stages_are_found_by_name(current);
    law_minimal_pipeline_order(i);
    law_each_turn_moves_a_job_on(
        v,
        urls,
        max_attempts,
        backoff,
        parse_error,
        replies,
        at,
        current,
        output,
    );
    let after = processed(v, urls, max_attempts, backoff, parse_error, replies, at);
    let gone = v.queue.dequeued().acknowledged(entry.entry_id);
    lemma_claimed_last_gone(v.queue);
    let next = current.next()->0;
    if i < 7 {
        assert(next == mvp_stages()[i + 1]);
        assert(next.name() == mvp_names()[i + 1]);
        lemma_only_the_last_waits(gone, job.job_id, next.name(), at);
    }
    assert forall|k: int| 0 <= k < i + 1 implies after.store.output(
        job.job_id,
        #[trigger] mvp_names()[k],
    ) == Some(output) by {
        assert(mvp_names()[k] == mvp_stages()[k].name());
        law_stage_names_are_distinct(mvp_stages()[k], current);
    }
}

/// An entry that joins a queue in which nothing waits is the only one that
/// waits.
proof fn lemma_only_the_last_waits(
    q: QueueView,
    job_id: Seq<char>,
    stage: Seq<char>,
    at: Seq<char>,
)
    requires
        q.wf(),
        q.next_entry() is None,
        q.last_id < i64::MAX,
    ensures
        q.enqueued(job_id, stage, at).wf(),
        first_free(q.enqueued(job_id, stage, at).rows, 0) == Some(q.rows.len() as int),
{
    let w = q.enqueued(job_id, stage, at);
    lemma_first_free(q.rows, 0);
    lemma_first_free(w.rows, 0);
    assert(forall|j: int| 0 <= j < q.rows.len() ==> w.rows[j] == q.rows[j]);
    assert(!w.rows[q.rows.len() as int].claimed);
}

/// Where only the last entry waits, nothing does once that one is done.
proof fn lemma_claimed_last_gone(q: QueueView)
    requires
        q.wf(),
        q.rows.len() > 0,
        first_free(q.rows, 0) == Some(q.rows.len() - 1),
    ensures
        q.dequeued().acknowledged(q.rows.last().entry.entry_id).wf(),
        q.dequeued().acknowledged(q.rows.last().entry.entry_id).next_entry() is None,
        q.dequeued().acknowledged(q.rows.last().entry.entry_id).last_id == q.last_id,
{
    let id = q.rows.last().entry.entry_id;
    let claimed = q.dequeued();
    let gone = claimed.acknowledged(id);
    lemma_first_free(q.rows, 0);
    law_claimed_entries_are_not_handed_out_again(q);
    law_acknowledged_entries_are_gone(claimed, id);
    lemma_first_free(gone.rows, 0);
    if gone.next_entry() is Some {
        let row = gone.rows[first_free(gone.rows, 0)->0];
        assert(gone.rows.contains(row));
        let k = choose|k: int| 0 <= k < claimed.rows.len() && claimed.rows[k] == row;
        assert(claimed.rows[k].claimed);
    }
}

/// There is a request body for each stage of the minimal pipeline.
proof fn lemma_minimal_stages_have_a_body(
    stage: Seq<char>,
    job: JobView,
    prior: Map<Seq<char>, JsonView>,
)
    requires
        mvp_names().contains(stage),
    ensures
        stage_body(stage, job, prior) is Some,
{
}

proof fn lemma_dispatch_keeps_wf(
    urls: Map<Seq<char>, Seq<char>>,
    store: StoreView,
    job_id: Seq<char>,
    stage: Seq<char>,
    parse_error: Seq<char>,
    replies: RepliesView,
)
    requires
        store.wf(),
    ensures
        dispatched(urls, store, job_id, stage, parse_error, replies).0.wf(),
{
    match begun(urls, job_id, stage, parse_error) {
        Ok(d) => {
            let other = d.job_id.push('x');
            assert(other.len() != d.job_id.len());
            law_dispatch_touches_one_job(d, store, replies, other, stage);
        },
        Err(_) => {},
    }
}

/// What counts of a [`ServiceHealth`] is what it holds, field by field.
pub proof fn law_healths_are_what_they_hold(health: ServiceHealth)
    ensures
        health@.name == health.name@,
        health@.url == health.url@,
        health@.healthy == health.healthy,
        health.error matches Some(v) ==> health@.error == Some(v@),
        health.error is None ==> health@.error is None,
{
}

/// The dispatch of an entry is announced with its stage.
pub proof fn law_announcements_name_the_stage(entry: EntryView)
    ensures
        announced(entry) == (EffectView::Log {
            level: "info"@,
            message: "dispatching stage "@ + entry.stage,
        }),
{
}

/// A job fails at the stage that was dispatched, and in no stage of the pipeline
/// where the entry names none.
pub proof fn law_jobs_fail_where_they_stood(text: Seq<char>, stage: Stage)
    ensures
        failed_at(stage.name()) == stage,
        parsed_stage(text) == Some(stage) ==> failed_at(text) == stage,
        parsed_stage(text) is None ==> failed_at(text) == Stage::Failed,
{
    law_stages_are_found_by_name(stage);
}

/// What follows a completed stage: a line that says so, the end of its entry
/// and, where a stage follows, an entry for that one.
pub proof fn law_completed_stages_are_settled(
    entry: EntryView,
    next: Stage,
    max_attempts: nat,
    backoff: u64,
)
    ensures
        ({
            let last = settled(entry, OutcomeView::Completed(None), max_attempts, backoff);
            let more = settled(entry, OutcomeView::Completed(Some(next)), max_attempts, backoff);
            &&& last.len() == 2
            &&& last[0] == (EffectView::Log {
                level: "info"@,
                message: "stage "@ + entry.stage + " completed"@,
            })
            &&& last[1] == EffectView::Acknowledge
            &&& more.len() == 3
            &&& more[0] == last[0]
            &&& more[1] == EffectView::Acknowledge
            &&& more[2] == EffectView::Enqueue(next.name())
        }),
{
}

/// What follows a failed stage: a line with the reason, a failed job, and the
/// end of its entry, however often it was tried.
pub proof fn law_failed_stages_are_settled(
    entry: EntryView,
    reason: Seq<char>,
    max_attempts: nat,
    backoff: u64,
)
    ensures
        ({
            let effects = settled(entry, OutcomeView::Failed(reason), max_attempts, backoff);
            &&& effects.len() == 3
            &&& effects[0] == (EffectView::Log {
                level: "error"@,
                message: "stage "@ + entry.stage + " failed: "@ + reason,
            })
            &&& effects[1] == EffectView::SetStatus(JobStatus::Failed, failed_at(entry.stage))
            &&& effects[2] == EffectView::Acknowledge
        }),
{
}

/// What follows where a service is down: a line with the number of the attempt
/// and the reason; below the limit the job is held pending, its entry goes back
/// and the loop waits, and at the limit the job fails and its entry ends.
pub proof fn law_unavailable_stages_are_settled(
    entry: EntryView,
    reason: Seq<char>,
    max_attempts: nat,
    backoff: u64,
)
    ensures
        ({
            let effects = settled(
                entry,
                OutcomeView::ServiceUnavailable(reason),
                max_attempts,
                backoff,
            );
            let n = effects.len() as int;
            &&& effects[0] == (EffectView::Log {
                level: "warn"@,
                message: "stage "@ + entry.stage + " service unavailable (attempt "@ + decimal(
                    entry.attempts as nat + 1,
                ) + "): "@ + reason,
            })
            &&& entry.attempts >= max_attempts ==> {
                &&& n == 3
                &&& effects[1] == EffectView::SetStatus(JobStatus::Failed, failed_at(entry.stage))
                &&& effects[2] == EffectView::Acknowledge
            }
            &&& entry.attempts < max_attempts ==> {
                &&& effects[n - 2] == EffectView::Nack
                &&& effects[n - 1] == EffectView::Sleep(backoff)
                &&& parsed_stage(entry.stage) is None ==> n == 3
                &&& parsed_stage(entry.stage) matches Some(stage) ==> n == 4 && effects[1]
                    == EffectView::SetStatus(JobStatus::Pending, stage)
            }
        }),
{
}

/// Each effect does one thing: a line is added to the log of the job, its status
/// changes, its entry ends or goes back, or an entry for it is added. All else
/// is as it was.
pub proof fn law_effects_do_one_thing(
    v: StateView,
    entry: EntryView,
    level: Seq<char>,
    message: Seq<char>,
    status: JobStatus,
    stage: Stage,
    name: Seq<char>,
    seconds: u64,
    at: Seq<char>,
)
    ensures
        ({
            let logged = applied(v, entry, EffectView::Log { level, message }, at);
            let set = applied(v, entry, EffectView::SetStatus(status, stage), at);
            let gone = applied(v, entry, EffectView::Acknowledge, at);
            let back = applied(v, entry, EffectView::Nack, at);
            let added = applied(v, entry, EffectView::Enqueue(name), at);
            let n = v.store.events.len() as int;
            &&& logged.queue == v.queue
            &&& logged.store.jobs == v.store.jobs
            &&& logged.store.outputs == v.store.outputs
            &&& logged.store.events.len() == n + 1
            &&& logged.store.events.take(n) == v.store.events
            &&& logged.store.events[n].job_id == entry.job_id
            &&& logged.store.events[n].timestamp == at
            &&& logged.store.events[n].level == level
            &&& logged.store.events[n].message == message
            &&& set.queue == v.queue
            &&& set.store == v.store.with_status(entry.job_id, status, stage)
            &&& gone.store == v.store
            &&& gone.queue == v.queue.acknowledged(entry.entry_id)
            &&& back.store == v.store
            &&& back.queue == v.queue.nacked(entry.entry_id)
            &&& added.store == v.store
            &&& v.queue.last_id < i64::MAX ==> added.queue == v.queue.enqueued(
                entry.job_id,
                name,
                at,
            )
            &&& v.queue.last_id == i64::MAX ==> added == v
            &&& applied(v, entry, EffectView::Sleep(seconds), at) == v
        }),
{
    let n = v.store.events.len() as int;
    let logged = applied(v, entry, EffectView::Log { level, message }, at);
    assert(logged.store.events.take(n) =~= v.store.events);
}

/// Effects are carried out one after the other, none left out.
pub proof fn law_effects_follow_each_other(
    v: StateView,
    entry: EntryView,
    first: Seq<EffectView>,
    effect: EffectView,
    second: Seq<EffectView>,
    at: Seq<char>,
)
    ensures
        all_applied(v, entry, Seq::empty(), at) == v,
        all_applied(v, entry, seq![effect], at) == applied(v, entry, effect, at),
        all_applied(v, entry, first + second, at) == all_applied(
            all_applied(v, entry, first, at),
            entry,
            second,
            at,
        ),
    decreases second.len(),
{
    reveal_with_fuel(all_applied, 2);
    assert(seq![effect].drop_last() =~= Seq::<EffectView>::empty());
    if second.len() == 0 {
        assert(first + second =~= first);
    } else {
        law_effects_follow_each_other(v, entry, first, effect, second.drop_last(), at);
        assert((first + second).drop_last() =~= first + second.drop_last());
        assert((first + second).last() == second.last());
    }
}

/// The record of a service says whether it is up, and why not where it is down.
pub proof fn law_health_records(
    name: Seq<char>,
    url: Seq<char>,
    status: HttpStatusView,
    error: Seq<char>,
)
    ensures
        ({
            let told = health_of(name, url, Ok(status));
            let cut_off = health_of(name, url, Err(error));
            &&& told.name == name
            &&& told.url == url
            &&& told.healthy <==> 200 <= status.code < 300
            &&& told.healthy <==> told.error is None
            &&& !told.healthy ==> told.error == Some("healthz returned "@ + status.text)
            &&& cut_off.name == name
            &&& cut_off.url == url
            &&& !cut_off.healthy
            &&& cut_off.error == Some(error)
        }),
{
}

/// The record of a service as JSON has each part under its own name, and no
/// member for an error where there is none.
pub proof fn law_health_records_as_json(health: HealthView)
    ensures
        health.body() is Object,
        ({
            let m = health.body()->Object_0;
            &&& m.contains_key("name"@)
            &&& m["name"@] == JsonView::Text(health.name)
            &&& m.contains_key("url"@)
            &&& m["url"@] == JsonView::Text(health.url)
            &&& m.contains_key("healthy"@)
            &&& m["healthy"@] == JsonView::Bool(health.healthy)
            &&& health.error is None ==> !m.contains_key("error"@)
            &&& health.error matches Some(e) ==> m.contains_key("error"@) && m["error"@]
                == JsonView::Text(e)
        }),
{
    reveal_strlit("name");
    reveal_strlit("url");
    reveal_strlit("healthy");
    reveal_strlit("error");
    assert("name"@.len() == 4 && "url"@.len() == 3 && "healthy"@.len() == 7 && "error"@.len() == 5);
}

/// Every service that is known is probed, in order, at `/healthz` below its own
/// base URL, and no other.
pub proof fn law_known_services_are_probed(
    urls: Map<Seq<char>, Seq<char>>,
    names: Seq<Seq<char>>,
    name: Seq<char>,
    i: int,
)
    ensures
        targets(urls, Seq::empty()).len() == 0,
        targets(urls, names.push(name)) == if urls.contains_key(name) {
            targets(urls, names).push((name, urls[name] + "/healthz"@))
        } else {
            targets(urls, names)
        },
        (forall|k: int| 0 <= k < names.len() ==> urls.contains_key(#[trigger] names[k])) ==> {
            &&& targets(urls, names).len() == names.len()
            &&& 0 <= i < names.len() ==> targets(urls, names)[i] == (
                names[i],
                urls[names[i]] + "/healthz"@,
            )
        },
    decreases names.len(),
{
    assert(names.push(name).drop_last() =~= names);
    if (forall|k: int| 0 <= k < names.len() ==> urls.contains_key(#[trigger] names[k]))
        && names.len() > 0 {
        let rest = names.drop_last();
        assert forall|k: int| 0 <= k < rest.len() implies urls.contains_key(#[trigger] rest[k]) by {
            assert(rest[k] == names[k]);
        }
        law_known_services_are_probed(urls, rest, name, i);
        assert(urls.contains_key(names[names.len() - 1]));
    }
}

/// One turn of the poll loop for a service that is down, below the limit: the
/// entry is as it was but for one more attempt, the job is held pending, and
/// the log has the announcement and the reason.
pub proof fn law_each_turn_returns_what_cannot_be_served(
    v: StateView,
    urls: Map<Seq<char>, Seq<char>>,
    max_attempts: nat,
    backoff: u64,
    parse_error: Seq<char>,
    replies: RepliesView,
    at: Seq<char>,
    stage: Stage,
    error: Seq<char>,
)
    requires
        v.wf(),
        v.queue.next_entry() is Some,
        v.queue.next_entry()->0.stage == stage.name(),
        v.queue.next_entry()->0.attempts < max_attempts,
        urls.contains_key(stage.name()),
        replies.health == Err::<HttpStatusView, Seq<char>>(error),
    ensures
        ({
            let entry = v.queue.next_entry()->0;
            let after = processed(v, urls, max_attempts, backoff, parse_error, replies, at);
            let n = v.store.events.len() as int;
            &&& after.queue == v.queue.dequeued().nacked(entry.entry_id)
            &&& after.store.outputs == v.store.outputs
            &&& v.store.job(entry.job_id) matches Some(job) ==> after.store.job(entry.job_id)
                == Some(JobView { status: JobStatus::Pending, current_stage: stage, ..job })
            &&& after.store.events.len() == n + 2
            &&& after.store.events[n].job_id == entry.job_id
            &&& after.store.events[n].message == "dispatching stage "@ + stage.name()
            &&& after.store.events[n + 1].job_id == entry.job_id
            &&& after.store.events[n + 1].level == "warn"@
            &&& after.store.events[n + 1].message == "stage "@ + stage.name()
                + " service unavailable (attempt "@ + decimal(entry.attempts as nat + 1) + "): "@ + (
            "service "@ + stage.name() + " failed health check: "@ + error)
        }),
{
    let entry = v.queue.next_entry()->0;
    law_stages_are_found_by_name(stage);
    let claimed = StateView { queue: v.queue.dequeued(), ..v };
    let started = applied(claimed, entry, announced(entry), at);
    law_claimed_entries_are_not_handed_out_again(v.queue);
    assert(started.store.wf());
    law_down_services_change_nothing(
        urls,
        started.store,
        entry.job_id,
        entry.stage,
        parse_error,
        replies,
    );
    let reason = "service "@ + entry.stage + " failed health check: "@ + error;
    law_unavailable_entries_go_back(started, entry, reason, stage, max_attempts, backoff, at);
    let effects = settled(entry, OutcomeView::ServiceUnavailable(reason), max_attempts, backoff);
    let logged = started.store.with_event(report(entry, effects, at));
    assert(logged.wf());
    assert(logged.job(entry.job_id) == v.store.job(entry.job_id));
    law_status_updates_touch_one_job(
        logged,
        entry.job_id,
        JobStatus::Pending,
        stage,
        entry.job_id,
    );
}

/// A turn of the poll loop that finds nothing changes nothing.
pub proof fn law_idle_turns_change_nothing(
    v: StateView,
    urls: Map<Seq<char>, Seq<char>>,
    max_attempts: nat,
    backoff: u64,
    parse_error: Seq<char>,
    replies: RepliesView,
    at: Seq<char>,
)
    requires
        v.queue.next_entry() is None,
    ensures
        processed(v, urls, max_attempts, backoff, parse_error, replies, at) == v,
{
}

/// What counts of an [`Effect`] is what it holds.
pub proof fn law_effects_are_what_they_hold(effect: Effect)
    ensures
        match effect {
            Effect::Log { level, message } => effect@ == (EffectView::Log {
                level: level@,
                message: message@,
            }),
            Effect::SetStatus(status, stage) => effect@ == EffectView::SetStatus(status, stage),
            Effect::Acknowledge => effect@ == EffectView::Acknowledge,
            Effect::Nack => effect@ == EffectView::Nack,
            Effect::Enqueue(stage) => effect@ == EffectView::Enqueue(stage@),
            Effect::Sleep(seconds) => effect@ == EffectView::Sleep(seconds),
        },
{
}

/// What counts of a [`Poll`] is what it holds.
pub proof fn law_polls_are_what_they_hold(poll: Poll)
    ensures
        match poll {
            Poll::Stop => poll@ == PollView::Stop,
            Poll::Wait(seconds) => poll@ == PollView::Wait(seconds),
            Poll::Start(entry, effect) => poll@ == PollView::Start(entry@, effect@),
        },
{
}

/// The report of the orchestrator is written with its state, the number of
/// waiting jobs, and the record of each service in order.
pub proof fn law_reports_are_written_whole(
    running: bool,
    pending_jobs: usize,
    services: Seq<ServiceHealth>,
    i: int,
)
    ensures
        ({
            let v = status_json(running, pending_jobs, services);
            let listed = v->Object_0["services"@]->Array_0;
            &&& holds(v, "running"@, JsonView::Bool(running))
            &&& holds(v, "pending_jobs"@, JsonView::Unsigned(pending_jobs as u64))
            &&& v->Object_0.contains_key("services"@)
            &&& v->Object_0["services"@] is Array
            &&& listed.len() == services.len()
            &&& 0 <= i < services.len() ==> listed[i] == services[i]@.body()
        }),
{
    reveal_strlit("running");
    reveal_strlit("pending_jobs");
    reveal_strlit("services");
    assert("running"@.len() == 7 && "pending_jobs"@.len() == 12 && "services"@.len() == 8);
}

/// The orchestrator polls as it is set to: by default every five seconds, with
/// fifteen where a service is down, and fifty attempts.
pub proof fn law_poll_settings(vars: Seq<(String, String)>, n: u32)
    ensures
        setting_of(vars, "POLL_INTERVAL_SECS"@) == Some(decimal(n as nat)) ==> poll_interval_in(
            vars,
        ) == n,
        setting_of(vars, "POLL_INTERVAL_SECS"@) is None ==> poll_interval_in(vars) == 5,
        setting_of(vars, "UNAVAILABLE_BACKOFF_SECS"@) == Some(decimal(n as nat)) ==> backoff_in(
            vars,
        ) == n,
        setting_of(vars, "UNAVAILABLE_BACKOFF_SECS"@) is None ==> backoff_in(vars) == 15,
        setting_of(vars, "MAX_RETRY_ATTEMPTS"@) == Some(decimal(n as nat)) ==> attempts_in(vars)
            == n,
        setting_of(vars, "MAX_RETRY_ATTEMPTS"@) is None ==> attempts_in(vars) == 50,
{
    let none = Seq::<char>::empty();
    law_defaults_stand_in(vars, "POLL_INTERVAL_SECS"@, none, u64::MAX as nat, 5, n as nat);
    law_defaults_stand_in(vars, "UNAVAILABLE_BACKOFF_SECS"@, none, u64::MAX as nat, 15, n as nat);
    law_defaults_stand_in(vars, "MAX_RETRY_ATTEMPTS"@, none, u32::MAX as nat, 50, n as nat);
}

} // verus!
