use vstd::prelude::*;
use crate::models::{Configuration, Envelope, MessagePayload};
use crate::stats::Stat;

verus! {

/// The two configuration flags that steer the delivery worker.
#[derive(Clone, Copy, Debug, PartialEq, Eq, Structural)]
pub struct WorkerMode {
    /// Log each envelope instead of publishing it; never touch the broker or the store.
    pub dry_run: bool,
    /// Terminate the process when an envelope can be neither published nor saved.
    pub panic_on_backup: bool,
}

impl WorkerMode {
    pub fn from_config(config: &Configuration) -> (r: WorkerMode)
        ensures
            r.dry_run == config.dry_run,
            r.panic_on_backup == config.panic_on_backup,
    {
        WorkerMode { dry_run: config.dry_run, panic_on_backup: config.panic_on_backup }
    }
}

/// Where the worker stands with the envelope it is handling, if any.
pub enum WorkerPhase<E> {
    /// Ready to take the next envelope off the handoff queue.
    Idle,
    /// Waiting for the broker's answer on this envelope.
    Publishing(E),
    /// Waiting for the backup store's answer on this envelope.
    Saving(E),
    /// The process was told to terminate; nothing more is handled.
    Halted,
}

/// What the surroundings report to the worker.
pub enum WorkerEvent<E> {
    /// An envelope was taken off the handoff queue.
    Dequeued(E),
    PublishSucceeded,
    PublishFailed,
    SaveSucceeded,
    SaveFailed,
}

/// What the worker asks its surroundings to do next.
pub enum WorkerAction<E> {
    /// Dry mode: log the envelope, and nothing else.
    Log(E),
    /// Publish the envelope to its topic, then report the outcome.
    Publish(E),
    /// Save the envelope to the backup store, then report the outcome.
    Save(E),
    /// The envelope is settled: emit `stat`, and a failure signal when asked.
    Finish { stat: Stat, failure_signal: bool },
    /// The envelope could be neither published nor saved: log its loss and emit `stat`.
    Abandon { lost: E, stat: Stat },
    /// The envelope could be neither published nor saved: terminate the process.
    Terminate(E),
    /// The worker is busy with another envelope, or halted: this one is
    /// handed back untouched.
    Refuse(E),
    /// The report was not one that the current phase waits for; nothing changed.
    Ignore,
}

impl<E: View> View for WorkerPhase<E> {
    type V = WorkerPhase<E::V>;

    open spec fn view(&self) -> WorkerPhase<E::V> {
        match self {
            WorkerPhase::Idle => WorkerPhase::Idle,
            WorkerPhase::Publishing(e) => WorkerPhase::Publishing(e@),
            WorkerPhase::Saving(e) => WorkerPhase::Saving(e@),
            WorkerPhase::Halted => WorkerPhase::Halted,
        }
    }
}

impl<E: View> View for WorkerEvent<E> {
    type V = WorkerEvent<E::V>;

    open spec fn view(&self) -> WorkerEvent<E::V> {
        match self {
            WorkerEvent::Dequeued(e) => WorkerEvent::Dequeued(e@),
            WorkerEvent::PublishSucceeded => WorkerEvent::PublishSucceeded,
            WorkerEvent::PublishFailed => WorkerEvent::PublishFailed,
            WorkerEvent::SaveSucceeded => WorkerEvent::SaveSucceeded,
            WorkerEvent::SaveFailed => WorkerEvent::SaveFailed,
        }
    }
}

impl<E: View> View for WorkerAction<E> {
    type V = WorkerAction<E::V>;

    open spec fn view(&self) -> WorkerAction<E::V> {
        match self {
            WorkerAction::Log(e) => WorkerAction::Log(e@),
            WorkerAction::Publish(e) => WorkerAction::Publish(e@),
            WorkerAction::Save(e) => WorkerAction::Save(e@),
            WorkerAction::Finish { stat, failure_signal } => WorkerAction::Finish {
                stat: *stat,
                failure_signal: *failure_signal,
            },
            WorkerAction::Abandon { lost, stat } => WorkerAction::Abandon { lost: lost@, stat: *stat },
            WorkerAction::Terminate(e) => WorkerAction::Terminate(e@),
            WorkerAction::Refuse(e) => WorkerAction::Refuse(e@),
            WorkerAction::Ignore => WorkerAction::Ignore,
        }
    }
}

pub open spec fn broker_stat(was_successful: bool) -> Stat {
    Stat { is_http_request: false, was_successful }
}

/// One transition of the delivery worker.
pub open spec fn worker_step(
    mode: WorkerMode,
    phase: WorkerPhase<Envelope>,
    event: WorkerEvent<Envelope>,
) -> (WorkerPhase<Envelope>, WorkerAction<Envelope>) {
    match (phase, event) {
        (WorkerPhase::Idle, WorkerEvent::Dequeued(e)) => if mode.dry_run {
            (WorkerPhase::Idle, WorkerAction::Log(e))
        } else {
            (WorkerPhase::Publishing(e), WorkerAction::Publish(e))
        },
        (WorkerPhase::Publishing(_), WorkerEvent::PublishSucceeded) => (
            WorkerPhase::Idle,
            WorkerAction::Finish { stat: broker_stat(true), failure_signal: false },
        ),
        (WorkerPhase::Publishing(e), WorkerEvent::PublishFailed) => (
            WorkerPhase::Saving(e),
            WorkerAction::Save(e),
        ),
        (WorkerPhase::Saving(_), WorkerEvent::SaveSucceeded) => (
            WorkerPhase::Idle,
            WorkerAction::Finish { stat: broker_stat(false), failure_signal: true },
        ),
        (WorkerPhase::Saving(e), WorkerEvent::SaveFailed) => if mode.panic_on_backup {
            (WorkerPhase::Halted, WorkerAction::Terminate(e))
        } else {
            (WorkerPhase::Idle, WorkerAction::Abandon { lost: e, stat: broker_stat(false) })
        },
        (_, WorkerEvent::Dequeued(e)) => (phase, WorkerAction::Refuse(e)),
        _ => (phase, WorkerAction::Ignore),
    }
}

/// The phase reached and the actions asked for when `events` are fed one by
/// one to a worker that starts in `phase`.
pub open spec fn worker_run(
    mode: WorkerMode,
    phase: WorkerPhase<Envelope>,
    events: Seq<WorkerEvent<Envelope>>,
) -> (WorkerPhase<Envelope>, Seq<WorkerAction<Envelope>>)
    decreases events.len(),
{
    if events.len() == 0 {
        (phase, Seq::empty())
    } else {
        let (next, action) = worker_step(mode, phase, events[0]);
        let (last, rest) = worker_run(mode, next, events.drop_first());
        (last, seq![action] + rest)
    }
}

/// Ghost state of a [`DeliveryWorker`].
pub struct WorkerState {
    pub mode: WorkerMode,
    pub phase: WorkerPhase<Envelope>,
}

/// The single consumer of the handoff queue. It owns the failure and backup
/// policy; its surroundings perform the publish and save calls that it asks
/// for and report their outcome back to it.
pub struct DeliveryWorker {
    mode: WorkerMode,
    phase: WorkerPhase<MessagePayload>,
}

impl View for DeliveryWorker {
    type V = WorkerState;

    closed spec fn view(&self) -> WorkerState {
        WorkerState { mode: self.mode, phase: self.phase@ }
    }
}

impl DeliveryWorker {
    /// An idle worker.
    pub fn new(mode: WorkerMode) -> (r: DeliveryWorker)
        ensures
            r@ == (WorkerState { mode, phase: WorkerPhase::Idle }),
    {
        DeliveryWorker { mode, phase: WorkerPhase::Idle }
    }

    /// True when the worker waits for the next envelope.
    pub fn is_idle(&self) -> (r: bool)
        ensures
            r == (self@.phase is Idle),
    {
        matches!(self.phase, WorkerPhase::Idle)
    }

    /// True once the worker has asked for the process to terminate.
    pub fn is_halted(&self) -> (r: bool)
        ensures
            r == (self@.phase is Halted),
    {
        matches!(self.phase, WorkerPhase::Halted)
    }

    /// Feeds one event to the worker and returns what it asks for next.
    pub fn step(&mut self, event: WorkerEvent<MessagePayload>) -> (action: WorkerAction<MessagePayload>)
        ensures
            final(self)@.mode == old(self)@.mode,
            (final(self)@.phase, action@) == worker_step(old(self)@.mode, old(self)@.phase, event@),
    {
        let mut phase = WorkerPhase::Idle;
        core::mem::swap(&mut self.phase, &mut phase);
        match phase {
            WorkerPhase::Idle => match event {
                WorkerEvent::Dequeued(e) => {
                    if self.mode.dry_run {
                        WorkerAction::Log(e)
                    } else {
                        let copy = e.duplicate();
                        self.phase = WorkerPhase::Publishing(e);
                        WorkerAction::Publish(copy)
                    }
                },
                _ => WorkerAction::Ignore,
            },
            WorkerPhase::Publishing(e) => match event {
                WorkerEvent::PublishSucceeded => WorkerAction::Finish {
                    stat: Stat::new(false, true),
                    failure_signal: false,
                },
                WorkerEvent::PublishFailed => {
                    let copy = e.duplicate();
                    self.phase = WorkerPhase::Saving(e);
                    WorkerAction::Save(copy)
                },
                WorkerEvent::Dequeued(other) => {
                    self.phase = WorkerPhase::Publishing(e);
                    WorkerAction::Refuse(other)
                },
                _ => {
                    self.phase = WorkerPhase::Publishing(e);
                    WorkerAction::Ignore
                },
            },
            WorkerPhase::Saving(e) => match event {
                WorkerEvent::SaveSucceeded => WorkerAction::Finish {
                    stat: Stat::new(false, false),
                    failure_signal: true,
                },
                WorkerEvent::SaveFailed => {
                    if self.mode.panic_on_backup {
                        self.phase = WorkerPhase::Halted;
                        WorkerAction::Terminate(e)
                    } else {
                        WorkerAction::Abandon { lost: e, stat: Stat::new(false, false) }
                    }
                },
                WorkerEvent::Dequeued(other) => {
                    self.phase = WorkerPhase::Saving(e);
                    WorkerAction::Refuse(other)
                },
                _ => {
                    self.phase = WorkerPhase::Saving(e);
                    WorkerAction::Ignore
                },
            },
            WorkerPhase::Halted => {
                self.phase = WorkerPhase::Halted;
                match event {
                    WorkerEvent::Dequeued(other) => WorkerAction::Refuse(other),
                    _ => WorkerAction::Ignore,
                }
            },
        }
    }
}

/// How the surroundings answer the worker's requests: whether the broker
/// takes a publish, and whether the backup store takes a write.
pub struct Surroundings {
    pub broker_reachable: bool,
    pub store_writable: bool,
}

/// The report that the surroundings give back for `action`, if it is a
/// request that has one.
pub open spec fn answer(env: Surroundings, action: WorkerAction<Envelope>) -> Option<WorkerEvent<Envelope>> {
    match action {
        WorkerAction::Publish(_) => Some(
            if env.broker_reachable {
                WorkerEvent::PublishSucceeded
            } else {
                WorkerEvent::PublishFailed
            },
        ),
        WorkerAction::Save(_) => Some(
            if env.store_writable {
                WorkerEvent::SaveSucceeded
            } else {
                WorkerEvent::SaveFailed
            },
        ),
        _ => None,
    }
}

/// The events that an idle worker sees while it handles the envelope `e`,
/// each request being answered as `env` does.
pub open spec fn delivery_events(mode: WorkerMode, env: Surroundings, e: Envelope) -> Seq<
    WorkerEvent<Envelope>,
> {
    if mode.dry_run {
        seq![WorkerEvent::Dequeued(e)]
    } else if env.broker_reachable {
        seq![WorkerEvent::Dequeued(e), WorkerEvent::PublishSucceeded]
    } else if env.store_writable {
        seq![WorkerEvent::Dequeued(e), WorkerEvent::PublishFailed, WorkerEvent::SaveSucceeded]
    } else {
        seq![WorkerEvent::Dequeued(e), WorkerEvent::PublishFailed, WorkerEvent::SaveFailed]
    }
}

/// One action per event.
pub proof fn lemma_run_len(mode: WorkerMode, phase: WorkerPhase<Envelope>, events: Seq<WorkerEvent<Envelope>>)
    ensures
        worker_run(mode, phase, events).1.len() == events.len(),
    decreases events.len(),
{
    if events.len() > 0 {
        let next = worker_step(mode, phase, events[0]).0;
        lemma_run_len(mode, next, events.drop_first());
    }
}

/// How one envelope is handled, for every configuration and every answer of
/// the broker and of the store. Each event after the first is the answer to
/// the request before it, and the last action asks for nothing more. The
/// envelope is logged (dry mode), published, saved, reported lost, or the
/// process is terminated: it is never dropped without a word.
pub proof fn lemma_delivery_of_one(mode: WorkerMode, env: Surroundings, e: Envelope)
    ensures
        ({
            let events = delivery_events(mode, env, e);
            let run = worker_run(mode, WorkerPhase::Idle, events);
            let actions = run.1;
            &&& actions.len() == events.len()
            &&& forall|i: int| 0 <= i < events.len() - 1 ==> answer(env, #[trigger] actions[i]) == Some(events[i + 1])
            &&& answer(env, actions.last()) is None
            &&& mode.dry_run ==> run.0 is Idle && actions == seq![WorkerAction::Log(e)]
            &&& !mode.dry_run && env.broker_reachable ==> run.0 is Idle && actions == seq![
                WorkerAction::Publish(e),
                WorkerAction::Finish { stat: broker_stat(true), failure_signal: false },
            ]
            &&& !mode.dry_run && !env.broker_reachable && env.store_writable ==> run.0 is Idle
                && actions == seq![
                WorkerAction::Publish(e),
                WorkerAction::Save(e),
                WorkerAction::Finish { stat: broker_stat(false), failure_signal: true },
            ]
            &&& !mode.dry_run && !env.broker_reachable && !env.store_writable && !mode.panic_on_backup
                ==> run.0 is Idle && actions == seq![
                WorkerAction::Publish(e),
                WorkerAction::Save(e),
                WorkerAction::Abandon { lost: e, stat: broker_stat(false) },
            ]
            &&& !mode.dry_run && !env.broker_reachable && !env.store_writable && mode.panic_on_backup
                ==> run.0 == WorkerPhase::<Envelope>::Halted && actions == seq![
                WorkerAction::Publish(e),
                WorkerAction::Save(e),
                WorkerAction::Terminate(e),
            ]
        }),
{
    let events = delivery_events(mode, env, e);
    reveal_with_fuel(worker_run, 4);
    assert(events.drop_first().drop_first().drop_first() =~= Seq::<WorkerEvent<Envelope>>::empty()
        || events.len() < 3);
    if events.len() >= 2 {
        assert(events.drop_first()[0] == events[1]);
    }
    if events.len() >= 3 {
        assert(events.drop_first().drop_first()[0] == events[2]);
    }
    lemma_run_len(mode, WorkerPhase::Idle, events);
}

/// At least once: outside dry mode, and while the backup store takes writes,
/// every envelope that the worker takes is either published or saved
/// (its publish or save request is answered with success), and the worker is
/// then ready for the next envelope.
pub proof fn lemma_at_least_once(mode: WorkerMode, env: Surroundings, e: Envelope)
    requires
        !mode.dry_run,
        env.store_writable,
    ensures
        ({
            let run = worker_run(mode, WorkerPhase::Idle, delivery_events(mode, env, e));
            &&& run.0 is Idle
            &&& exists|i: int|
                0 <= i < run.1.len() && (#[trigger] run.1[i] == WorkerAction::Publish(e) || run.1[i]
                    == WorkerAction::Save(e)) && (answer(env, run.1[i]) == Some(
                    WorkerEvent::<Envelope>::PublishSucceeded,
                ) || answer(env, run.1[i]) == Some(WorkerEvent::<Envelope>::SaveSucceeded))
        }),
{
    lemma_delivery_of_one(mode, env, e);
    let run = worker_run(mode, WorkerPhase::Idle, delivery_events(mode, env, e));
    if env.broker_reachable {
        assert(run.1[0] == WorkerAction::Publish(e));
    } else {
        assert(run.1[1] == WorkerAction::Save(e));
    }
}

/// Among `actions`, the envelope `e` is published (its publish is asked for
/// while the broker is reachable) or saved (its save is asked for while the
/// store takes writes).
pub open spec fn published_or_saved(actions: Seq<WorkerAction<Envelope>>, env: Surroundings, e: Envelope) -> bool {
    exists|i: int|
        0 <= i < actions.len() && ((#[trigger] actions[i] == WorkerAction::Publish(e) && env.broker_reachable)
            || (actions[i] == WorkerAction::Save(e) && env.store_writable))
}

/// The events that an idle worker sees while it handles the envelopes `es`
/// one after the other, the requests for `es[k]` being answered as `envs[k]`
/// does.
pub open spec fn delivery_trace(mode: WorkerMode, envs: Seq<Surroundings>, es: Seq<Envelope>) -> Seq<
    WorkerEvent<Envelope>,
>
    decreases es.len(),
{
    if es.len() == 0 || envs.len() == 0 {
        Seq::empty()
    } else {
        delivery_events(mode, envs[0], es[0]) + delivery_trace(mode, envs.drop_first(), es.drop_first())
    }
}

/// Feeding two runs of events one after the other.
pub proof fn lemma_run_append(
    mode: WorkerMode,
    phase: WorkerPhase<Envelope>,
    a: Seq<WorkerEvent<Envelope>>,
    b: Seq<WorkerEvent<Envelope>>,
)
    ensures
        worker_run(mode, phase, a + b) == ({
            let first = worker_run(mode, phase, a);
            let second = worker_run(mode, first.0, b);
            (second.0, first.1 + second.1)
        }),
    decreases a.len(),
{
    if a.len() == 0 {
        assert(a + b =~= b);
        assert(worker_run(mode, phase, a).1 + worker_run(mode, phase, b).1 =~= worker_run(mode, phase, b).1);
    } else {
        let (next, action) = worker_step(mode, phase, a[0]);
        lemma_run_append(mode, next, a.drop_first(), b);
        assert((a + b).drop_first() =~= a.drop_first() + b);
        assert((a + b)[0] == a[0]);
        let first = worker_run(mode, next, a.drop_first());
        let second = worker_run(mode, first.0, b);
        assert(seq![action] + (first.1 + second.1) =~= (seq![action] + first.1) + second.1);
    }
}

/// At least once, for a whole stream: outside dry mode, and while the backup
/// store takes writes, every envelope that the worker takes off the queue is
/// published (its publish was asked for while the broker was reachable) or
/// saved (its save was asked for while the store took writes), whatever the
/// broker does from one envelope to the next.
pub proof fn lemma_at_least_once_for_all(mode: WorkerMode, envs: Seq<Surroundings>, es: Seq<Envelope>)
    requires
        !mode.dry_run,
        envs.len() == es.len(),
        forall|k: int| 0 <= k < envs.len() ==> #[trigger] envs[k].store_writable,
    ensures
        ({
            let run = worker_run(mode, WorkerPhase::Idle, delivery_trace(mode, envs, es));
            &&& run.0 is Idle
            &&& forall|k: int| 0 <= k < es.len() ==> #[trigger] published_or_saved(run.1, envs[k], es[k])
        }),
    decreases es.len(),
{
    if es.len() > 0 {
        let head = delivery_events(mode, envs[0], es[0]);
        let tail = delivery_trace(mode, envs.drop_first(), es.drop_first());
        assert forall|k: int| 0 <= k < envs.drop_first().len() implies #[trigger] envs.drop_first()[k].store_writable by {
            assert(envs.drop_first()[k] == envs[k + 1]);
        }
        lemma_at_least_once_for_all(mode, envs.drop_first(), es.drop_first());
        lemma_delivery_of_one(mode, envs[0], es[0]);
        lemma_run_append(mode, WorkerPhase::Idle, head, tail);
        let first = worker_run(mode, WorkerPhase::Idle, head);
        let second = worker_run(mode, WorkerPhase::Idle, tail);
        let actions = first.1 + second.1;
        assert(worker_run(mode, WorkerPhase::Idle, delivery_trace(mode, envs, es)).1 == actions);
        assert forall|k: int| 0 <= k < es.len() implies #[trigger] published_or_saved(actions, envs[k], es[k]) by {
            if k == 0 {
                if envs[0].broker_reachable {
                    assert(actions[0] == WorkerAction::Publish(es[0]));
                } else {
                    assert(actions[1] == WorkerAction::Save(es[0]));
                }
            } else {
                assert(es.drop_first()[k - 1] == es[k]);
                assert(envs.drop_first()[k - 1] == envs[k]);
                assert(published_or_saved(second.1, envs.drop_first()[k - 1], es.drop_first()[k - 1]));
                let j = choose|j: int|
                    0 <= j < second.1.len() && ((#[trigger] second.1[j] == WorkerAction::Publish(es[k])
                        && envs[k].broker_reachable) || (second.1[j] == WorkerAction::Save(es[k])
                        && envs[k].store_writable));
                assert(actions[first.1.len() + j] == second.1[j]);
            }
        }
    }
}

/// Dry mode never asks for a publish or a save, whatever the worker is fed.
pub proof fn lemma_dry_run_isolation(mode: WorkerMode, events: Seq<WorkerEvent<Envelope>>)
    requires
        mode.dry_run,
    ensures
        worker_run(mode, WorkerPhase::Idle, events).0 is Idle,
        forall|i: int|
            0 <= i < worker_run(mode, WorkerPhase::Idle, events).1.len() ==> !(
            #[trigger] worker_run(mode, WorkerPhase::Idle, events).1[i] is Publish) && !(worker_run(
                mode,
                WorkerPhase::Idle,
                events,
            ).1[i] is Save),
    decreases events.len(),
{
    if events.len() > 0 {
        lemma_dry_run_isolation(mode, events.drop_first());
        let rest = worker_run(mode, WorkerPhase::Idle, events.drop_first()).1;
        let actions = worker_run(mode, WorkerPhase::Idle, events).1;
        assert forall|i: int| 0 < i < actions.len() implies actions[i] == rest[i - 1] by {}
    }
}

/// The worker handed the envelope back, or ignored a report.
pub open spec fn refused_or_ignored(action: WorkerAction<Envelope>) -> bool {
    action is Refuse || action is Ignore
}

/// A halted worker handles nothing: it hands back every envelope and
/// ignores every report.
pub proof fn lemma_halted_handles_nothing(mode: WorkerMode, events: Seq<WorkerEvent<Envelope>>)
    ensures
        worker_run(mode, WorkerPhase::Halted, events).0 is Halted,
        forall|i: int|
            0 <= i < worker_run(mode, WorkerPhase::Halted, events).1.len() ==> refused_or_ignored(
                #[trigger] worker_run(mode, WorkerPhase::Halted, events).1[i],
            ),
    decreases events.len(),
{
    if events.len() > 0 {
        lemma_halted_handles_nothing(mode, events.drop_first());
        let rest = worker_run(mode, WorkerPhase::Halted, events.drop_first()).1;
        let actions = worker_run(mode, WorkerPhase::Halted, events).1;
        assert forall|i: int| 0 < i < actions.len() implies actions[i] == rest[i - 1] by {}
    }
}

/// Fatal persistence: the worker asks for termination only when told to
/// panic on backup failure, and after that request it handles nothing more:
/// it hands back every further envelope and ignores every report.
pub proof fn lemma_terminate_is_final(
    mode: WorkerMode,
    phase: WorkerPhase<Envelope>,
    events: Seq<WorkerEvent<Envelope>>,
)
    ensures
        ({
            let actions = worker_run(mode, phase, events).1;
            &&& forall|i: int| 0 <= i < actions.len() && #[trigger] actions[i] is Terminate ==> mode.panic_on_backup
            &&& forall|i: int, j: int|
                0 <= i < j < actions.len() && #[trigger] actions[i] is Terminate ==> refused_or_ignored(
                    #[trigger] actions[j],
                )
        }),
    decreases events.len(),
{
    if events.len() > 0 {
        let (next, first) = worker_step(mode, phase, events[0]);
        lemma_terminate_is_final(mode, next, events.drop_first());
        let rest = worker_run(mode, next, events.drop_first()).1;
        let actions = worker_run(mode, phase, events).1;
        assert forall|i: int| 0 < i < actions.len() implies actions[i] == rest[i - 1] by {}
        if first is Terminate {
            lemma_halted_handles_nothing(mode, events.drop_first());
        }
    }
}

} // verus!
