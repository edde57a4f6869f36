//! The poll loop of the orchestrator.
//!
//! A [`PollLoop`] says what is to be done next ([`PollLoop::action`]) and takes
//! what came of it ([`PollLoop::step`]). Entries are taken one at a time: the
//! next one is claimed only after the one before was dispatched and settled.

use crate::dispatch::{DispatchOutcome, OutcomeView};
use crate::job_queue::{EntryView, QueueEntry};
use crate::orchestrator::{
    effect_views, settle, settled, Effect, EffectView, Poll, PollConfig, PollView,
};
use crate::registry::max_attempts;
use vstd::prelude::*;

verus! {

/// How far the loop is with an entry.
#[derive(Debug)]
pub enum LoopPhase {
    /// It has none, and looks at the queue.
    Idle,
    /// It has none, and waits for so many seconds.
    Waiting { seconds: u64 },
    /// It has claimed one, and carries out its first effect.
    Announcing { entry: QueueEntry, effect: Effect },
    /// It dispatches it.
    Dispatching { entry: QueueEntry },
    /// It carries out the effects that settle it, of which so many are done.
    Settling { entry: QueueEntry, effects: Vec<Effect>, done: usize },
    /// It is over.
    Stopped,
}

/// What a [`LoopPhase`] says.
pub enum LoopPhaseView {
    Idle,
    Waiting { seconds: u64 },
    Announcing { entry: EntryView, effect: EffectView },
    Dispatching { entry: EntryView },
    Settling { entry: EntryView, effects: Seq<EffectView>, done: nat },
    Stopped,
}

impl View for LoopPhase {
    type V = LoopPhaseView;

    open spec fn view(&self) -> LoopPhaseView {
        match self {
            LoopPhase::Idle => LoopPhaseView::Idle,
            LoopPhase::Waiting { seconds } => LoopPhaseView::Waiting { seconds: *seconds },
            LoopPhase::Announcing { entry, effect } => LoopPhaseView::Announcing {
                entry: entry@,
                effect: effect@,
            },
            LoopPhase::Dispatching { entry } => LoopPhaseView::Dispatching { entry: entry@ },
            LoopPhase::Settling { entry, effects, done } => LoopPhaseView::Settling {
                entry: entry@,
                effects: effect_views(effects@),
                done: *done as nat,
            },
            LoopPhase::Stopped => LoopPhaseView::Stopped,
        }
    }
}

/// What is to be done next.
#[derive(Debug)]
pub enum LoopAction {
    /// Poll the queue, unless the service is shutting down; answer with
    /// [`LoopEvent::Polled`].
    Claim,
    /// Wait for so many seconds; answer with [`LoopEvent::Slept`].
    Sleep(u64),
    /// Carry out an effect for an entry; answer with [`LoopEvent::CarriedOut`].
    CarryOut(QueueEntry, Effect),
    /// Dispatch an entry to its end; answer with [`LoopEvent::Dispatched`].
    Dispatch(QueueEntry),
    /// Nothing: the loop is over.
    Stop,
}

/// What a [`LoopAction`] says.
pub enum LoopActionView {
    Claim,
    Sleep(u64),
    CarryOut(EntryView, EffectView),
    Dispatch(EntryView),
    Stop,
}

impl View for LoopAction {
    type V = LoopActionView;

    open spec fn view(&self) -> LoopActionView {
        match self {
            LoopAction::Claim => LoopActionView::Claim,
            LoopAction::Sleep(seconds) => LoopActionView::Sleep(*seconds),
            LoopAction::CarryOut(entry, effect) => LoopActionView::CarryOut(entry@, effect@),
            LoopAction::Dispatch(entry) => LoopActionView::Dispatch(entry@),
            LoopAction::Stop => LoopActionView::Stop,
        }
    }
}

/// What came of a [`LoopAction`].
#[derive(Debug)]
pub enum LoopEvent {
    Polled(Poll),
    Slept,
    CarriedOut,
    Dispatched(DispatchOutcome),
}

/// What a [`LoopEvent`] says.
pub enum LoopEventView {
    Polled(PollView),
    Slept,
    CarriedOut,
    Dispatched(OutcomeView),
}

impl View for LoopEvent {
    type V = LoopEventView;

    open spec fn view(&self) -> LoopEventView {
        match self {
            LoopEvent::Polled(poll) => LoopEventView::Polled(poll@),
            LoopEvent::Slept => LoopEventView::Slept,
            LoopEvent::CarriedOut => LoopEventView::CarriedOut,
            LoopEvent::Dispatched(outcome) => LoopEventView::Dispatched(outcome@),
        }
    }
}

/// The poll loop.
#[derive(Debug)]
pub struct PollLoop {
    pub config: PollConfig,
    /// The settings, among them the retry limits of single stages.
    pub vars: Vec<(String, String)>,
    pub phase: LoopPhase,
}

/// What the loop is set to.
pub struct LoopSettings {
    pub config: PollConfig,
    pub vars: Seq<(String, String)>,
}

impl LoopSettings {
    /// What settles an entry after its dispatch.
    pub open spec fn settlement(self, entry: EntryView, outcome: OutcomeView) -> Seq<EffectView> {
        settled(
            entry,
            outcome,
            max_attempts(entry.stage, self.config.default_max_attempts, self.vars),
            self.config.unavailable_backoff,
        )
    }
}

/// What is to be done next in a phase.
pub open spec fn action_of(phase: LoopPhaseView) -> LoopActionView {
    match phase {
        LoopPhaseView::Idle => LoopActionView::Claim,
        LoopPhaseView::Waiting { seconds } => LoopActionView::Sleep(seconds),
        LoopPhaseView::Announcing { entry, effect } => LoopActionView::CarryOut(entry, effect),
        LoopPhaseView::Dispatching { entry } => LoopActionView::Dispatch(entry),
        LoopPhaseView::Settling { entry, effects, done } => LoopActionView::CarryOut(
            entry,
            effects[done as int],
        ),
        LoopPhaseView::Stopped => LoopActionView::Stop,
    }
}

/// How far the loop is after an event. One that is no answer to the action
/// changes nothing.
pub open spec fn next_phase(
    settings: LoopSettings,
    phase: LoopPhaseView,
    event: LoopEventView,
) -> LoopPhaseView {
    match (phase, event) {
        (LoopPhaseView::Idle, LoopEventView::Polled(poll)) => match poll {
            PollView::Stop => LoopPhaseView::Stopped,
            PollView::Wait(seconds) => LoopPhaseView::Waiting { seconds },
            PollView::Start(entry, effect) => LoopPhaseView::Announcing { entry, effect },
        },
        (LoopPhaseView::Waiting { .. }, LoopEventView::Slept) => LoopPhaseView::Idle,
        (
            LoopPhaseView::Announcing { entry, .. },
            LoopEventView::CarriedOut,
        ) => LoopPhaseView::Dispatching { entry },
        (
            LoopPhaseView::Dispatching { entry },
            LoopEventView::Dispatched(outcome),
        ) => LoopPhaseView::Settling {
            entry,
            effects: settings.settlement(entry, outcome),
            done: 0,
        },
        (LoopPhaseView::Settling { entry, effects, done }, LoopEventView::CarriedOut) => if done + 1
            < effects.len() {
            LoopPhaseView::Settling { entry, effects, done: done + 1 }
        } else {
            LoopPhaseView::Idle
        },
        (phase, _) => phase,
    }
}

impl PollLoop {
    /// What the loop is set to.
    pub open spec fn settings(self) -> LoopSettings {
        LoopSettings { config: self.config, vars: self.vars@ }
    }

    /// There always is an effect left to carry out while an entry is settled.
    pub open spec fn wf(self) -> bool {
        self.phase@ matches LoopPhaseView::Settling { effects, done, .. } ==> done < effects.len()
    }

    /// Begin to poll.
    pub fn begin(config: PollConfig, vars: Vec<(String, String)>) -> (r: PollLoop)
        ensures
            r.wf(),
            r.settings() == (LoopSettings { config, vars: vars@ }),
            r.phase@ == LoopPhaseView::Idle,
    {
        PollLoop { config, vars, phase: LoopPhase::Idle }
    }

    /// What is to be done next.
    pub fn action(&self) -> (r: LoopAction)
        requires
            self.wf(),
        ensures
            r@ == action_of(self.phase@),
    {
        match &self.phase {
            LoopPhase::Idle => LoopAction::Claim,
            LoopPhase::Waiting { seconds } => LoopAction::Sleep(*seconds),
            LoopPhase::Announcing { entry, effect } => LoopAction::CarryOut(
                entry.copy(),
                effect.copy(),
            ),
            LoopPhase::Dispatching { entry } => LoopAction::Dispatch(entry.copy()),
            LoopPhase::Settling { entry, effects, done } => {
                assert(effect_views(effects@).len() == effects@.len());
                LoopAction::CarryOut(entry.copy(), effects[*done].copy())
            },
            LoopPhase::Stopped => LoopAction::Stop,
        }
    }

    /// Take in what came of the action. An event that is no answer to it
    /// changes nothing.
    pub fn step(self, event: LoopEvent) -> (r: PollLoop)
        requires
            self.wf(),
        ensures
            r.wf(),
            r.settings() == self.settings(),
            r.phase@ == next_phase(self.settings(), self.phase@, event@),
    {
        let PollLoop { config, vars, phase } = self;
        let next = match (phase, event) {
            (LoopPhase::Idle, LoopEvent::Polled(poll)) => match poll {
                Poll::Stop => LoopPhase::Stopped,
                Poll::Wait(seconds) => LoopPhase::Waiting { seconds },
                Poll::Start(entry, effect) => LoopPhase::Announcing { entry, effect },
            },
            (LoopPhase::Waiting { .. }, LoopEvent::Slept) => LoopPhase::Idle,
            (LoopPhase::Announcing { entry, .. }, LoopEvent::CarriedOut) => {
                LoopPhase::Dispatching { entry }
            },
            (LoopPhase::Dispatching { entry }, LoopEvent::Dispatched(outcome)) => {
                let effects = settle(&entry, &outcome, &config, &vars);
                assert(effect_views(effects@).len() >= 2);
                LoopPhase::Settling { entry, effects, done: 0 }
            },
            (LoopPhase::Settling { entry, effects, done }, LoopEvent::CarriedOut) => {
                assert(effect_views(effects@).len() == effects@.len());
                if effects.len() - done > 1 {
                    LoopPhase::Settling { entry, effects, done: done + 1 }
                } else {
                    LoopPhase::Idle
                }
            },
            (phase, _) => phase,
        };
        PollLoop { config, vars, phase: next }
    }
}

// ---------------------------------------------------------------------------
// Laws
// ---------------------------------------------------------------------------

/// Whether an effect settles its entry: removes it from the queue, or returns
/// it.
pub open spec fn settling(effect: EffectView) -> bool {
    effect is Acknowledge || effect is Nack
}

/// Whatever the outcome of a dispatch, exactly one of the effects that follow
/// acknowledges or returns the entry.
pub proof fn law_each_settlement_settles_once(
    entry: EntryView,
    outcome: OutcomeView,
    max_attempts: nat,
    backoff: u64,
)
    ensures
        exists|m: int|
            0 <= m < settled(entry, outcome, max_attempts, backoff).len() && settling(
                #[trigger] settled(entry, outcome, max_attempts, backoff)[m],
            ) && forall|k: int|
                0 <= k < settled(entry, outcome, max_attempts, backoff).len() && k != m
                    ==> !settling(#[trigger] settled(entry, outcome, max_attempts, backoff)[k]),
{
    let effects = settled(entry, outcome, max_attempts, backoff);
    let m: int = match outcome {
        OutcomeView::Completed(_) => 1,
        OutcomeView::Failed(_) => 2,
        OutcomeView::ServiceUnavailable(_) => if entry.attempts >= max_attempts {
            2
        } else {
            effects.len() - 2
        },
    };
    assert(settling(effects[m]));
}

/// How far a loop that has begun is after the first `n` of some events.
pub open spec fn phase_at(
    settings: LoopSettings,
    events: Seq<LoopEventView>,
    n: int,
) -> LoopPhaseView
    decreases n,
{
    if n <= 0 {
        LoopPhaseView::Idle
    } else {
        next_phase(settings, phase_at(settings, events, n - 1), events[n - 1])
    }
}

/// Whether the loop claims that entry with event `i`.
pub open spec fn claims_at(
    settings: LoopSettings,
    events: Seq<LoopEventView>,
    i: int,
    entry: EntryView,
) -> bool {
    &&& phase_at(settings, events, i) is Idle
    &&& events[i] matches LoopEventView::Polled(PollView::Start(e, _)) && e == entry
}

/// Whether a dispatch of that entry ends with event `d`.
pub open spec fn dispatches_at(
    settings: LoopSettings,
    events: Seq<LoopEventView>,
    d: int,
    entry: EntryView,
) -> bool {
    &&& phase_at(settings, events, d) == (LoopPhaseView::Dispatching { entry })
    &&& events[d] is Dispatched
}

/// Whether that entry is acknowledged or returned with event `k`.
pub open spec fn settles_at(
    settings: LoopSettings,
    events: Seq<LoopEventView>,
    k: int,
    entry: EntryView,
) -> bool {
    &&& action_of(phase_at(settings, events, k)) matches LoopActionView::CarryOut(e, effect) && e
        == entry && settling(effect)
    &&& phase_at(settings, events, k) is Settling
    &&& events[k] is CarriedOut
}

/// Whether that entry was dispatched and then settled, behind event `i` and
/// before event `n`.
pub open spec fn finished_between(
    settings: LoopSettings,
    events: Seq<LoopEventView>,
    i: int,
    n: int,
    entry: EntryView,
) -> bool {
    exists|d: int, k: int|
        i < d < k < n && #[trigger] dispatches_at(settings, events, d, entry)
            && #[trigger] settles_at(settings, events, k, entry)
}

/// Whether one of the effects from there on settles the entry.
spec fn settles_from(effects: Seq<EffectView>, done: int) -> bool {
    exists|m: int| done <= m < effects.len() && settling(#[trigger] effects[m])
}

/// Whether that entry was dispatched, behind event `i` and before event `n`.
spec fn dispatched_between(
    settings: LoopSettings,
    events: Seq<LoopEventView>,
    i: int,
    n: int,
    entry: EntryView,
) -> bool {
    exists|d: int| i < d < n && #[trigger] dispatches_at(settings, events, d, entry)
}

/// Whether the loop is at work on that entry since event `i`, and has yet to
/// settle it.
spec fn at_work(
    settings: LoopSettings,
    events: Seq<LoopEventView>,
    i: int,
    n: int,
    entry: EntryView,
) -> bool {
    match phase_at(settings, events, n) {
        LoopPhaseView::Announcing { entry: e, .. } => e == entry,
        LoopPhaseView::Dispatching { entry: e } => e == entry,
        LoopPhaseView::Settling { entry: e, effects, done } => {
            &&& e == entry
            &&& settles_from(effects, done as int)
            &&& dispatched_between(settings, events, i, n, entry)
        },
        _ => false,
    }
}

proof fn lemma_at_work_or_finished(
    settings: LoopSettings,
    events: Seq<LoopEventView>,
    i: int,
    n: int,
    entry: EntryView,
)
    requires
        0 <= i < n <= events.len(),
        claims_at(settings, events, i, entry),
    ensures
        finished_between(settings, events, i, n, entry) || at_work(
            settings,
            events,
            i,
            n,
            entry,
        ),
    decreases n - i,
{
    let p = n - 1;
    let before = phase_at(settings, events, p);
    let after = phase_at(settings, events, n);
    assert(after == next_phase(settings, before, events[p]));
    if n > i + 1 {
        lemma_at_work_or_finished(settings, events, i, p, entry);
        if finished_between(settings, events, i, p, entry) {
            let (d, k) = choose|d: int, k: int|
                i < d < k < p && #[trigger] dispatches_at(settings, events, d, entry)
                    && #[trigger] settles_at(settings, events, k, entry);
            assert(dispatches_at(settings, events, d, entry));
            assert(settles_at(settings, events, k, entry));
            assert(finished_between(settings, events, i, n, entry));
        } else {
            match (before, events[p]) {
                (
                    LoopPhaseView::Dispatching { entry: e },
                    LoopEventView::Dispatched(outcome),
                ) => {
                    assert(dispatches_at(settings, events, p, entry));
                    law_each_settlement_settles_once(
                        e,
                        outcome,
                        max_attempts(e.stage, settings.config.default_max_attempts, settings.vars),
                        settings.config.unavailable_backoff,
                    );
                    let effects = settings.settlement(e, outcome);
                    let m = choose|m: int|
                        0 <= m < effects.len() && settling(#[trigger] effects[m]);
                    assert(settling(effects[m]));
                    assert(after == (LoopPhaseView::Settling { entry: e, effects, done: 0 }));
                    assert(settles_from(effects, 0));
                    assert(dispatched_between(settings, events, i, n, entry));
                    assert(at_work(settings, events, i, n, entry));
                },
                (
                    LoopPhaseView::Settling { entry: e, effects, done },
                    LoopEventView::CarriedOut,
                ) => {
                    let d = choose|d: int|
                        i < d < p && #[trigger] dispatches_at(settings, events, d, entry);
                    assert(dispatches_at(settings, events, d, entry));
                    if settling(effects[done as int]) {
                        assert(settles_at(settings, events, p, entry));
                        assert(finished_between(settings, events, i, n, entry));
                    } else {
                        let m = choose|m: int|
                            done <= m < effects.len() && settling(#[trigger] effects[m]);
                        assert(settling(effects[m]));
                        assert(after == (LoopPhaseView::Settling {
                            entry: e,
                            effects,
                            done: done + 1,
                        }));
                        assert(settles_from(effects, done as int + 1));
                        assert(dispatched_between(settings, events, i, n, entry));
                        assert(at_work(settings, events, i, n, entry));
                    }
                },
                (LoopPhaseView::Settling { effects, done, .. }, _) => {
                    let d = choose|d: int|
                        i < d < p && #[trigger] dispatches_at(settings, events, d, entry);
                    assert(dispatches_at(settings, events, d, entry));
                    let m = choose|m: int|
                        done <= m < effects.len() && settling(#[trigger] effects[m]);
                    assert(settling(effects[m]));
                    assert(after == before);
                    assert(at_work(settings, events, i, n, entry));
                },
                _ => {
                    assert(at_work(settings, events, i, n, entry));
                },
            }
        }
    }
}

/// One entry at a time: once an entry is claimed, the loop neither looks at the
/// queue again nor ends before the dispatch of that entry has ended and the
/// entry was then acknowledged or returned.
pub proof fn law_entries_are_settled_before_the_next_claim(
    settings: LoopSettings,
    events: Seq<LoopEventView>,
    i: int,
    j: int,
    entry: EntryView,
)
    requires
        0 <= i < j <= events.len(),
        claims_at(settings, events, i, entry),
        action_of(phase_at(settings, events, j)) is Claim || action_of(
            phase_at(settings, events, j),
        ) is Stop,
    ensures
        finished_between(settings, events, i, j, entry),
{
    lemma_at_work_or_finished(settings, events, i, j, entry);
}

/// At most one dispatch is under way: between the claims of two entries the
/// first was dispatched to its end and settled.
pub proof fn law_dispatches_do_not_overlap(
    settings: LoopSettings,
    events: Seq<LoopEventView>,
    i: int,
    j: int,
    first: EntryView,
    second: EntryView,
)
    requires
        0 <= i < j < events.len(),
        claims_at(settings, events, i, first),
        claims_at(settings, events, j, second),
    ensures
        finished_between(settings, events, i, j, first),
{
    law_entries_are_settled_before_the_next_claim(settings, events, i, j, first);
}

/// The loop ends only by being told to stop when it has no entry: at a look at
/// the queue that finds the service shutting down.
pub proof fn law_the_loop_stops_between_entries(
    settings: LoopSettings,
    events: Seq<LoopEventView>,
    n: int,
)
    requires
        0 <= n < events.len(),
        phase_at(settings, events, n + 1) is Stopped,
        !(phase_at(settings, events, n) is Stopped),
    ensures
        phase_at(settings, events, n) is Idle,
        events[n] == LoopEventView::Polled(PollView::Stop),
{
}

/// In each phase that is done which the phase is for: the effects of a
/// settlement one after the other.
pub proof fn law_phases_of_the_loop_ask_for_their_action(
    seconds: u64,
    entry: EntryView,
    effect: EffectView,
    effects: Seq<EffectView>,
    done: nat,
)
    ensures
        action_of(LoopPhaseView::Idle) == LoopActionView::Claim,
        action_of(LoopPhaseView::Waiting { seconds }) == LoopActionView::Sleep(seconds),
        action_of(LoopPhaseView::Announcing { entry, effect }) == LoopActionView::CarryOut(
            entry,
            effect,
        ),
        action_of(LoopPhaseView::Dispatching { entry }) == LoopActionView::Dispatch(entry),
        action_of(LoopPhaseView::Settling { entry, effects, done }) == LoopActionView::CarryOut(
            entry,
            effects[done as int],
        ),
        action_of(LoopPhaseView::Stopped) == LoopActionView::Stop,
{
}

/// An entry is announced, dispatched and then settled by all the effects of its
/// outcome, in their order, before the loop looks at the queue again.
pub proof fn law_entries_go_through_the_loop(
    settings: LoopSettings,
    entry: EntryView,
    effect: EffectView,
    outcome: OutcomeView,
    effects: Seq<EffectView>,
    done: nat,
    seconds: u64,
)
    ensures
        next_phase(
            settings,
            LoopPhaseView::Idle,
            LoopEventView::Polled(PollView::Start(entry, effect)),
        ) == (LoopPhaseView::Announcing { entry, effect }),
        next_phase(
            settings,
            LoopPhaseView::Idle,
            LoopEventView::Polled(PollView::Wait(seconds)),
        ) == (LoopPhaseView::Waiting { seconds }),
        next_phase(settings, LoopPhaseView::Idle, LoopEventView::Polled(PollView::Stop))
            == LoopPhaseView::Stopped,
        next_phase(settings, LoopPhaseView::Waiting { seconds }, LoopEventView::Slept)
            == LoopPhaseView::Idle,
        next_phase(
            settings,
            LoopPhaseView::Announcing { entry, effect },
            LoopEventView::CarriedOut,
        ) == (LoopPhaseView::Dispatching { entry }),
        next_phase(
            settings,
            LoopPhaseView::Dispatching { entry },
            LoopEventView::Dispatched(outcome),
        ) == (LoopPhaseView::Settling {
            entry,
            effects: settled(
                entry,
                outcome,
                max_attempts(entry.stage, settings.config.default_max_attempts, settings.vars),
                settings.config.unavailable_backoff,
            ),
            done: 0,
        }),
        done + 1 < effects.len() ==> next_phase(
            settings,
            LoopPhaseView::Settling { entry, effects, done },
            LoopEventView::CarriedOut,
        ) == (LoopPhaseView::Settling { entry, effects, done: done + 1 }),
        done + 1 == effects.len() ==> next_phase(
            settings,
            LoopPhaseView::Settling { entry, effects, done },
            LoopEventView::CarriedOut,
        ) == LoopPhaseView::Idle,
{
}

/// An event that is no answer to what was asked changes nothing, and nothing
/// starts a loop again that has stopped.
pub proof fn law_stray_events_leave_the_loop_alone(
    settings: LoopSettings,
    phase: LoopPhaseView,
    event: LoopEventView,
)
    requires
        match action_of(phase) {
            LoopActionView::Claim => !(event is Polled),
            LoopActionView::Sleep(_) => !(event is Slept),
            LoopActionView::CarryOut(_, _) => !(event is CarriedOut),
            LoopActionView::Dispatch(_) => !(event is Dispatched),
            LoopActionView::Stop => true,
        },
    ensures
        next_phase(settings, phase, event) == phase,
{
}

/// What counts of a [`LoopPhase`] is what it holds.
pub proof fn law_loop_phases_are_what_they_hold(phase: LoopPhase)
    ensures
        match phase {
            LoopPhase::Idle => phase@ == LoopPhaseView::Idle,
            LoopPhase::Waiting { seconds } => phase@ == (LoopPhaseView::Waiting {
                seconds,
            }),
            LoopPhase::Announcing { entry, effect } => phase@ == (LoopPhaseView::Announcing {
                entry: entry@,
                effect: effect@,
            }),
            LoopPhase::Dispatching { entry } => phase@ == (LoopPhaseView::Dispatching {
                entry: entry@,
            }),
            LoopPhase::Settling { entry, effects, done } => phase@ == (LoopPhaseView::Settling {
                entry: entry@,
                effects: effect_views(effects@),
                done: done as nat,
            }),
            LoopPhase::Stopped => phase@ == LoopPhaseView::Stopped,
        },
{
}

/// What counts of a [`LoopAction`] is what it holds.
pub proof fn law_loop_actions_are_what_they_hold(action: LoopAction)
    ensures
        match action {
            LoopAction::Claim => action@ == LoopActionView::Claim,
            LoopAction::Sleep(seconds) => action@ == LoopActionView::Sleep(seconds),
            LoopAction::CarryOut(entry, effect) => action@ == LoopActionView::CarryOut(
                entry@,
                effect@,
            ),
            LoopAction::Dispatch(entry) => action@ == LoopActionView::Dispatch(entry@),
            LoopAction::Stop => action@ == LoopActionView::Stop,
        },
{
}

/// What counts of a [`LoopEvent`] is what it holds.
pub proof fn law_loop_events_are_what_they_hold(event: LoopEvent)
    ensures
        match event {
            LoopEvent::Polled(poll) => event@ == LoopEventView::Polled(poll@),
            LoopEvent::Slept => event@ == LoopEventView::Slept,
            LoopEvent::CarriedOut => event@ == LoopEventView::CarriedOut,
            LoopEvent::Dispatched(outcome) => event@ == LoopEventView::Dispatched(outcome@),
        },
{
}

} // verus!
