use vstd::prelude::*;
use crate::models::{BackupRecord, Envelope, MessagePayload, RecordView};

verus! {

/// Where a recovery pass stands.
#[derive(Clone, Copy, Debug, PartialEq, Eq, Structural)]
pub enum RecoveryPhase {
    /// Waiting for the listing of the backup store.
    Listing,
    /// Waiting for the broker's answer on the record at this index.
    Publishing(usize),
    /// Waiting for the store to delete the record at this index.
    Deleting(usize),
    /// The pass is over.
    Done,
}

/// What the surroundings report to a recovery pass.
pub enum RecoveryEvent<L> {
    /// The store listed these records.
    Listed(L),
    /// The store could not be listed.
    ListFailed,
    PublishSucceeded,
    PublishFailed,
    /// The delete request was carried out or failed; either way the pass goes on.
    DeleteFinished,
}

/// What a recovery pass asks its surroundings to do next.
pub enum RecoveryAction<E, I> {
    /// List every record of the backup store.
    List,
    /// Publish this envelope, then report the outcome.
    Publish(E),
    /// Delete the record with this identifier, then report.
    Delete(I),
    /// Every listed record was tried once; the pass is over.
    Complete,
    /// Recovery does not run (dry mode, or the store could not be listed).
    Skipped,
    /// The event was not one that the current phase waits for; nothing changed.
    Ignore,
}

impl View for RecoveryEvent<Vec<BackupRecord>> {
    type V = RecoveryEvent<Seq<RecordView>>;

    open spec fn view(&self) -> RecoveryEvent<Seq<RecordView>> {
        match self {
            RecoveryEvent::Listed(records) => RecoveryEvent::Listed(records_view(records@)),
            RecoveryEvent::ListFailed => RecoveryEvent::ListFailed,
            RecoveryEvent::PublishSucceeded => RecoveryEvent::PublishSucceeded,
            RecoveryEvent::PublishFailed => RecoveryEvent::PublishFailed,
            RecoveryEvent::DeleteFinished => RecoveryEvent::DeleteFinished,
        }
    }
}

impl<E: View, I: View> View for RecoveryAction<E, I> {
    type V = RecoveryAction<E::V, I::V>;

    open spec fn view(&self) -> RecoveryAction<E::V, I::V> {
        match self {
            RecoveryAction::List => RecoveryAction::List,
            RecoveryAction::Publish(e) => RecoveryAction::Publish(e@),
            RecoveryAction::Delete(id) => RecoveryAction::Delete(id@),
            RecoveryAction::Complete => RecoveryAction::Complete,
            RecoveryAction::Skipped => RecoveryAction::Skipped,
            RecoveryAction::Ignore => RecoveryAction::Ignore,
        }
    }
}

pub type RecoveryStep = RecoveryAction<Envelope, Seq<char>>;

pub open spec fn records_view(records: Seq<BackupRecord>) -> Seq<RecordView> {
    records.map_values(|r: BackupRecord| r@)
}

/// Ghost state of a [`Recovery`] pass: the records listed so far and the phase.
pub struct RecoveryState {
    pub records: Seq<RecordView>,
    pub phase: RecoveryPhase,
}

/// An index held by the phase points into the listed records.
pub open spec fn recovery_wf(s: RecoveryState) -> bool {
    match s.phase {
        RecoveryPhase::Publishing(i) => i < s.records.len(),
        RecoveryPhase::Deleting(i) => i < s.records.len(),
        _ => true,
    }
}

/// The state and first request of a pass: none at all in dry mode.
pub open spec fn recovery_start(dry_run: bool) -> (RecoveryState, RecoveryStep) {
    if dry_run {
        (RecoveryState { records: Seq::empty(), phase: RecoveryPhase::Done }, RecoveryAction::Skipped)
    } else {
        (RecoveryState { records: Seq::empty(), phase: RecoveryPhase::Listing }, RecoveryAction::List)
    }
}

/// Moves on to the record at index `i`, or ends the pass after the last one.
pub open spec fn recovery_advance(records: Seq<RecordView>, i: int) -> (RecoveryPhase, RecoveryStep) {
    if i < records.len() {
        (RecoveryPhase::Publishing(i as usize), RecoveryAction::Publish(records[i].envelope))
    } else {
        (RecoveryPhase::Done, RecoveryAction::Complete)
    }
}

/// One transition of a recovery pass.
pub open spec fn recovery_step(s: RecoveryState, event: RecoveryEvent<Seq<RecordView>>) -> (
    RecoveryState,
    RecoveryStep,
) {
    match (s.phase, event) {
        (RecoveryPhase::Listing, RecoveryEvent::Listed(records)) => {
            let (phase, action) = recovery_advance(records, 0);
            (RecoveryState { records, phase }, action)
        },
        (RecoveryPhase::Listing, RecoveryEvent::ListFailed) => (
            RecoveryState { phase: RecoveryPhase::Done, ..s },
            RecoveryAction::Skipped,
        ),
        (RecoveryPhase::Publishing(i), RecoveryEvent::PublishSucceeded) => (
            RecoveryState { phase: RecoveryPhase::Deleting(i), ..s },
            RecoveryAction::Delete(s.records[i as int].id),
        ),
        (RecoveryPhase::Publishing(i), RecoveryEvent::PublishFailed) => {
            let (phase, action) = recovery_advance(s.records, i + 1);
            (RecoveryState { phase, ..s }, action)
        },
        (RecoveryPhase::Deleting(i), RecoveryEvent::DeleteFinished) => {
            let (phase, action) = recovery_advance(s.records, i + 1);
            (RecoveryState { phase, ..s }, action)
        },
        _ => (s, RecoveryAction::Ignore),
    }
}

/// The startup recovery pass. It runs once, before the delivery worker
/// starts: it lists the backup store, asks for each record to be published,
/// and asks for the records that were published to be deleted. A record
/// whose publish fails stays in the store for the next start.
pub struct Recovery {
    records: Vec<BackupRecord>,
    phase: RecoveryPhase,
}

impl View for Recovery {
    type V = RecoveryState;

    closed spec fn view(&self) -> RecoveryState {
        RecoveryState { records: records_view(self.records@), phase: self.phase }
    }
}

impl Recovery {
    /// An index held by the phase points into the listed records.
    #[verifier::type_invariant]
    spec fn well_formed(&self) -> bool {
        recovery_wf(self@)
    }

    /// Starts a pass and returns its first request: a listing of the store,
    /// or, in dry mode, none (the pass is over at once).
    pub fn start(dry_run: bool) -> (r: (Recovery, RecoveryAction<MessagePayload, String>))
        ensures
            (r.0@, r.1@) == recovery_start(dry_run),
    {
        let records: Vec<BackupRecord> = Vec::new();
        proof {
            assert(records_view(records@) =~= Seq::empty());
        }
        if dry_run {
            (Recovery { records, phase: RecoveryPhase::Done }, RecoveryAction::Skipped)
        } else {
            (Recovery { records, phase: RecoveryPhase::Listing }, RecoveryAction::List)
        }
    }

    /// True once the pass is over.
    pub fn is_done(&self) -> (r: bool)
        ensures
            r == (self@.phase == RecoveryPhase::Done),
    {
        self.phase == RecoveryPhase::Done
    }

    fn advance(&mut self, i: usize) -> (action: RecoveryAction<MessagePayload, String>)
        requires
            i <= old(self).records@.len(),
        ensures
            final(self).records == old(self).records,
            (final(self)@.phase, action@) == recovery_advance(old(self)@.records, i as int),
    {
        if i < self.records.len() {
            self.phase = RecoveryPhase::Publishing(i);
            RecoveryAction::Publish(self.records[i].envelope.duplicate())
        } else {
            self.phase = RecoveryPhase::Done;
            RecoveryAction::Complete
        }
    }

    /// Feeds one event to the pass and returns what it asks for next.
    pub fn step(&mut self, event: RecoveryEvent<Vec<BackupRecord>>) -> (action: RecoveryAction<
        MessagePayload,
        String,
    >)
        ensures
            (final(self)@, action@) == recovery_step(old(self)@, event@),
    {
        proof {
            use_type_invariant(&*self);
            assert(records_view(self.records@).len() == self.records@.len());
        }
        let listed = self.records.len();
        match event {
            RecoveryEvent::Listed(records) => {
                if self.phase == RecoveryPhase::Listing {
                    self.records = records;
                    self.advance(0)
                } else {
                    RecoveryAction::Ignore
                }
            },
            RecoveryEvent::ListFailed => {
                if self.phase == RecoveryPhase::Listing {
                    self.phase = RecoveryPhase::Done;
                    RecoveryAction::Skipped
                } else {
                    RecoveryAction::Ignore
                }
            },
            RecoveryEvent::PublishSucceeded => match self.phase {
                RecoveryPhase::Publishing(i) => {
                    self.phase = RecoveryPhase::Deleting(i);
                    RecoveryAction::Delete(self.records[i].id.clone())
                },
                _ => RecoveryAction::Ignore,
            },
            RecoveryEvent::PublishFailed => match self.phase {
                RecoveryPhase::Publishing(i) => {
                    assert(i < listed);
                    self.advance(i + 1)
                },
                _ => RecoveryAction::Ignore,
            },
            RecoveryEvent::DeleteFinished => match self.phase {
                RecoveryPhase::Deleting(i) => {
                    assert(i < listed);
                    self.advance(i + 1)
                },
                _ => RecoveryAction::Ignore,
            },
        }
    }
}

/// The state reached and the requests made when `events` are fed one by
/// one to a pass that stands in `s`.
pub open spec fn recovery_run(s: RecoveryState, events: Seq<RecoveryEvent<Seq<RecordView>>>) -> (
    RecoveryState,
    Seq<RecoveryStep>,
)
    decreases events.len(),
{
    if events.len() == 0 {
        (s, Seq::empty())
    } else {
        let (next, action) = recovery_step(s, events[0]);
        let (last, rest) = recovery_run(next, events.drop_first());
        (last, seq![action] + rest)
    }
}

/// The reports of a broker that takes every publish, for `n` records: each
/// publish succeeds and each delete is carried out.
pub open spec fn accept_all(n: nat) -> Seq<RecoveryEvent<Seq<RecordView>>>
    decreases n,
{
    if n == 0 {
        Seq::empty()
    } else {
        seq![RecoveryEvent::PublishSucceeded, RecoveryEvent::DeleteFinished] + accept_all(
            (n - 1) as nat,
        )
    }
}

/// The identifiers that `actions` ask to delete.
pub open spec fn deleted_ids(actions: Seq<RecoveryStep>) -> Set<Seq<char>> {
    Set::new(|id: Seq<char>| exists|j: int| 0 <= j < actions.len() && actions[j] == RecoveryAction::<Envelope, Seq<char>>::Delete(id))
}

/// `records` lists `store`: each record is an entry of the store, and each
/// entry of the store is one of the records.
pub open spec fn lists_store(records: Seq<RecordView>, store: Map<Seq<char>, Envelope>) -> bool {
    &&& forall|i: int|
        0 <= i < records.len() ==> #[trigger] store.contains_key(records[i].id) && store[records[i].id]
            == records[i].envelope
    &&& forall|id: Seq<char>| #[trigger] store.contains_key(id) ==> exists|i: int| 0 <= i < records.len() && records[i].id == id
}

proof fn lemma_accept_all_tail(n: nat)
    requires
        n > 0,
    ensures
        accept_all(n)[0] == RecoveryEvent::<Seq<RecordView>>::PublishSucceeded,
        accept_all(n).drop_first()[0] == RecoveryEvent::<Seq<RecordView>>::DeleteFinished,
        accept_all(n).drop_first().drop_first() == accept_all((n - 1) as nat),
{
    assert(accept_all(n).drop_first().drop_first() =~= accept_all((n - 1) as nat));
}

/// From the record at index `i` on, a broker that takes every publish makes
/// the pass publish then delete each record in turn, and end.
proof fn lemma_resend_from(records: Seq<RecordView>, i: int)
    requires
        0 <= i <= records.len(),
        records.len() <= usize::MAX,
    ensures
        ({
            let (phase, first) = recovery_advance(records, i);
            let run = recovery_run(
                RecoveryState { records, phase },
                accept_all((records.len() - i) as nat),
            );
            let actions = seq![first] + run.1;
            &&& run.0 == (RecoveryState { records, phase: RecoveryPhase::Done })
            &&& actions.len() == 2 * (records.len() - i) + 1
            &&& forall|j: int|
                i <= j < records.len() ==> actions[2 * (j - i)] == RecoveryAction::<
                    Envelope,
                    Seq<char>,
                >::Publish(#[trigger] records[j].envelope) && actions[2 * (j - i) + 1]
                    == RecoveryAction::<Envelope, Seq<char>>::Delete(records[j].id)
            &&& actions[2 * (records.len() - i)] == RecoveryAction::<Envelope, Seq<char>>::Complete
        }),
    decreases records.len() - i,
{
    let n = (records.len() - i) as nat;
    if i < records.len() {
        lemma_resend_from(records, i + 1);
        lemma_accept_all_tail(n);
        let events = accept_all(n);
        let s0 = RecoveryState { records, phase: RecoveryPhase::Publishing(i as usize) };
        let s1 = RecoveryState { records, phase: RecoveryPhase::Deleting(i as usize) };
        let (phase2, a2) = recovery_advance(records, i + 1);
        let s2 = RecoveryState { records, phase: phase2 };
        assert(recovery_step(s0, events[0]) == (s1, RecoveryAction::<Envelope, Seq<char>>::Delete(records[i].id)));
        assert(recovery_step(s1, events.drop_first()[0]) == (s2, a2));
        assert((records.len() - (i + 1)) as nat == (n - 1) as nat);
        let tail = recovery_run(s2, accept_all((records.len() - (i + 1)) as nat));
        let later = seq![a2] + tail.1;
        assert(forall|j: int|
            i + 1 <= j < records.len() ==> later[2 * (j - (i + 1))] == RecoveryAction::<
                Envelope,
                Seq<char>,
            >::Publish(#[trigger] records[j].envelope) && later[2 * (j - (i + 1)) + 1]
                == RecoveryAction::<Envelope, Seq<char>>::Delete(records[j].id));
        assert(recovery_run(s1, events.drop_first()).1 == seq![a2] + tail.1);
        assert(recovery_run(s0, events).1 == seq![RecoveryAction::<Envelope, Seq<char>>::Delete(records[i].id), a2] + tail.1) by {
            assert(seq![RecoveryAction::<Envelope, Seq<char>>::Delete(records[i].id)] + (seq![a2] + tail.1) =~= seq![RecoveryAction::<Envelope, Seq<char>>::Delete(records[i].id), a2] + tail.1);
        }
        assert(recovery_run(s1, events.drop_first()).0 == tail.0);
        assert(recovery_run(s0, events).0 == tail.0);
        let actions = seq![RecoveryAction::<Envelope, Seq<char>>::Publish(records[i].envelope)] + recovery_run(s0, events).1;
        assert(recovery_advance(records, i) == (
            RecoveryPhase::Publishing(i as usize),
            RecoveryAction::<Envelope, Seq<char>>::Publish(records[i].envelope),
        ));
        assert(actions == seq![recovery_advance(records, i).1] + recovery_run(
            RecoveryState { records, phase: recovery_advance(records, i).0 },
            accept_all((records.len() - i) as nat),
        ).1);
        assert(actions.len() == 2 * n + 1);
        assert(actions[0] == RecoveryAction::<Envelope, Seq<char>>::Publish(records[i].envelope));
        assert(actions[1] == RecoveryAction::<Envelope, Seq<char>>::Delete(records[i].id));
        assert forall|j: int| i <= j < records.len() implies actions[2 * (j - i)] == RecoveryAction::<
                    Envelope,
                    Seq<char>,
                >::Publish(#[trigger] records[j].envelope) && actions[2 * (j - i) + 1]
                    == RecoveryAction::<Envelope, Seq<char>>::Delete(records[j].id) by {
            if j == i {
                assert(actions[2 * (j - i)] == actions[0]);
            } else {
            assert(2 * (j - i) == 2 * (j - (i + 1)) + 2);
            assert(actions[2 * (j - i)] == later[2 * (j - (i + 1))]);
            assert(actions[2 * (j - i) + 1] == later[2 * (j - (i + 1)) + 1]);
            assert(later[2 * (j - (i + 1))] == RecoveryAction::<Envelope, Seq<char>>::Publish(records[j].envelope));
            assert(later[2 * (j - (i + 1)) + 1] == RecoveryAction::<Envelope, Seq<char>>::Delete(records[j].id));
            }
        }
        assert(actions[2 * n as int] == later[2 * (records.len() - (i + 1))]);
        assert(actions[2 * (records.len() - i)] == RecoveryAction::<Envelope, Seq<char>>::Complete);
    } else {
        assert(accept_all(0) =~= Seq::<RecoveryEvent<Seq<RecordView>>>::empty());
        let done = RecoveryState { records, phase: RecoveryPhase::Done };
        assert(recovery_run(done, accept_all(0)).1 =~= Seq::<RecoveryStep>::empty());
        assert(recovery_run(done, accept_all(0)).0 == done);
        assert((seq![RecoveryAction::<Envelope, Seq<char>>::Complete] + recovery_run(done, accept_all(0)).1).len() == 1);
    }
}

/// A pass whose store lists `records`, facing a broker that takes every
/// publish, asks for each record to be published exactly once, in the order
/// of the listing, each followed by the delete of that record, and then
/// ends. Applied to a store that the listing covers, those deletes leave it
/// empty.
pub proof fn lemma_recovery_drains_store(records: Seq<RecordView>, store: Map<Seq<char>, Envelope>)
    requires
        lists_store(records, store),
        records.len() <= usize::MAX,
    ensures
        ({
            let start = recovery_start(false);
            let run = recovery_run(
                start.0,
                seq![RecoveryEvent::Listed(records)] + accept_all(records.len()),
            );
            let actions = seq![start.1] + run.1;
            &&& run.0.phase == RecoveryPhase::Done
            &&& actions.len() == 2 * records.len() + 2
            &&& actions[0] == RecoveryAction::<Envelope, Seq<char>>::List
            &&& forall|k: int|
                0 <= k < records.len() ==> actions[2 * k + 1] == RecoveryAction::<
                    Envelope,
                    Seq<char>,
                >::Publish(records[k].envelope) && actions[2 * k + 2] == RecoveryAction::<
                    Envelope,
                    Seq<char>,
                >::Delete(records[k].id)
            &&& actions[2 * records.len() as int + 1] == RecoveryAction::<Envelope, Seq<char>>::Complete
            &&& store.remove_keys(deleted_ids(actions)) == Map::<Seq<char>, Envelope>::empty()
        }),
{
    let start = recovery_start(false);
    let events = seq![RecoveryEvent::Listed(records)] + accept_all(records.len());
    lemma_resend_from(records, 0);
    let (phase, first) = recovery_advance(records, 0);
    let s1 = RecoveryState { records, phase };
    assert(events.drop_first() =~= accept_all(records.len()));
    assert(recovery_step(start.0, events[0]) == (s1, first));
    let run = recovery_run(start.0, events);
    let actions = seq![start.1] + run.1;
    let from_first = seq![first] + recovery_run(s1, accept_all(records.len())).1;
    assert(run.1 == from_first);
    assert forall|k: int| 0 <= k < 2 * records.len() + 1 implies actions[k + 1] == from_first[k] by {}
    assert forall|k: int| 0 <= k < records.len() implies actions[2 * k + 1] == RecoveryAction::<
                    Envelope,
                    Seq<char>,
                >::Publish(records[k].envelope) && actions[2 * k + 2] == RecoveryAction::<
                    Envelope,
                    Seq<char>,
                >::Delete(records[k].id) by {
        assert(from_first[2 * (k - 0)] == RecoveryAction::<Envelope, Seq<char>>::Publish(records[k].envelope));
        assert(from_first[2 * (k - 0) + 1] == RecoveryAction::<Envelope, Seq<char>>::Delete(records[k].id));
        assert(actions[2 * k + 1] == from_first[2 * k]);
        assert(actions[2 * k + 2] == from_first[2 * k + 1]);
    }
    assert(actions[2 * records.len() as int + 1] == from_first[2 * records.len() as int]);
    let left = store.remove_keys(deleted_ids(actions));
    assert forall|id: Seq<char>| !left.contains_key(id) by {
        if store.contains_key(id) {
            let i = choose|i: int| 0 <= i < records.len() && records[i].id == id;
            assert(actions[2 * i + 2] == RecoveryAction::<Envelope, Seq<char>>::Delete(id));
            assert(deleted_ids(actions).contains(id));
        }
    }
    assert(left =~= Map::<Seq<char>, Envelope>::empty());
}

/// A finished pass ignores every event.
pub proof fn lemma_done_ignores(s: RecoveryState, events: Seq<RecoveryEvent<Seq<RecordView>>>)
    requires
        s.phase == RecoveryPhase::Done,
    ensures
        recovery_run(s, events).0 == s,
        forall|i: int| 0 <= i < recovery_run(s, events).1.len() ==> #[trigger] recovery_run(s, events).1[i] is Ignore,
    decreases events.len(),
{
    if events.len() > 0 {
        lemma_done_ignores(s, events.drop_first());
        let rest = recovery_run(s, events.drop_first()).1;
        let actions = recovery_run(s, events).1;
        assert forall|i: int| 0 < i < actions.len() implies actions[i] == rest[i - 1] by {}
    }
}

/// In dry mode recovery does not run: the pass asks for nothing at start,
/// and nothing whatever it is fed afterwards.
pub proof fn lemma_dry_run_skips_recovery(events: Seq<RecoveryEvent<Seq<RecordView>>>)
    ensures
        recovery_start(true).1 is Skipped,
        forall|i: int|
            0 <= i < recovery_run(recovery_start(true).0, events).1.len() ==> #[trigger] recovery_run(
                recovery_start(true).0,
                events,
            ).1[i] is Ignore,
{
    lemma_done_ignores(recovery_start(true).0, events);
}

} // verus!
