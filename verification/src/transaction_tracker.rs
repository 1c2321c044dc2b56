//! Which calls have been seen, so that a retransmission is not carried out twice.
//!
//! A transaction is in progress until it is marked as processed. After that it
//! is remembered for the retention period, or until its place is needed.
use crate::transaction_table::{TransactionId, TransactionKey, TransactionState, TransactionTable};
use std::collections::VecDeque;
use std::time::{Duration, Instant};
use vstd::prelude::*;

verus! {

/// How many transactions a tracker remembers by default.
pub const MAX_TRACKED_TRANSACTIONS: usize = 65536;

// ----------------------------------------------------------------------- clock

#[verifier::external_type_specification]
#[verifier::external_body]
pub struct ExInstant(Instant);

/// `std::time::Instant::now`. Nothing is claimed of the instant.
pub assume_specification[ Instant::now ]() -> Instant;

/// `std::time::Instant::elapsed`. Nothing is claimed of the time that has passed.
pub assume_specification[ Instant::elapsed ](instant: &Instant) -> Duration;

/// `std::time::Duration::as_nanos`. Nothing is claimed of the number, since
/// nothing is known of the duration.
pub assume_specification[ Duration::as_nanos ](duration: &Duration) -> u128;

// ----------------------------------------------------------------------- model

/// The state of a tracker.
pub struct TrackerView {
    /// How long a completed transaction is remembered, in nanoseconds.
    pub retention: u128,
    pub max_entries: usize,
    pub transactions: Map<TransactionKey, TransactionState>,
    /// Completions in the order in which they were marked, with their times.
    pub completed: Seq<(u128, TransactionKey)>,
}

impl TrackerView {
    /// The completion is the one that the transaction still stands at.
    pub open spec fn is_current(self, completion: (u128, TransactionKey)) -> bool {
        self.transactions.contains_key(completion.1) && self.transactions[completion.1]
            == TransactionState::Completed(completion.0)
    }

    /// Without the completion that was marked first.
    pub open spec fn without_first(self) -> TrackerView {
        TrackerView { completed: self.completed.skip(1), ..self }
    }

    /// Forgets the transaction that was completed first, and whether there was
    /// one. Completions that are no longer current are passed over.
    pub open spec fn evict(self) -> (TrackerView, bool)
        decreases self.completed.len(),
    {
        if self.completed.len() == 0 {
            (self, false)
        } else if self.is_current(self.completed[0]) {
            (
                TrackerView {
                    transactions: self.transactions.remove(self.completed[0].1),
                    ..self.without_first()
                },
                true,
            )
        } else {
            self.without_first().evict()
        }
    }

    /// The first completion is as old as the retention period.
    pub open spec fn first_is_old(self, now: u128) -> bool {
        self.completed.len() > 0 && age(now, self.completed[0].0) >= self.retention
    }

    /// Forgets while the first completion is old.
    pub open spec fn expire(self, now: u128) -> TrackerView
        decreases self.completed.len(),
    {
        if self.first_is_old(now) {
            proof {
                lemma_evict_shrinks(self);
            }
            self.evict().0.expire(now)
        } else {
            self
        }
    }

    /// Forgets until there is room for one transaction more, and whether there is.
    pub open spec fn make_room(self) -> (TrackerView, bool)
        decreases self.completed.len(),
    {
        if self.transactions.dom().len() < self.max_entries {
            (self, true)
        } else if self.completed.len() == 0 {
            (self, false)
        } else {
            proof {
                lemma_evict_shrinks(self);
            }
            if self.evict().1 {
                self.evict().0.make_room()
            } else {
                (self.evict().0, false)
            }
        }
    }

    /// Whether a call at a time is a retransmission, and what is remembered then.
    /// Where there is no room, a new transaction is taken for a retransmission.
    pub open spec fn check(self, now: u128, key: TransactionKey) -> (TrackerView, bool) {
        let fresh = self.expire(now);
        if fresh.transactions.contains_key(key) {
            (fresh, true)
        } else {
            let (roomy, room) = fresh.make_room();
            if room {
                (
                    TrackerView {
                        transactions: roomy.transactions.insert(key, TransactionState::InProgress),
                        ..roomy
                    },
                    false,
                )
            } else {
                (roomy, true)
            }
        }
    }

    /// What is remembered once a call has been processed at a time.
    pub open spec fn complete(self, now: u128, key: TransactionKey) -> TrackerView {
        if self.transactions.contains_key(key) {
            TrackerView {
                transactions: self.transactions.insert(key, TransactionState::Completed(now)),
                completed: self.completed.push((now, key)),
                ..self
            }
        } else {
            self
        }
    }

    /// There is room for something, and no more is remembered than there is room for.
    pub open spec fn bounded(self) -> bool {
        &&& self.max_entries > 0
        &&& self.transactions.dom().finite()
        &&& self.transactions.dom().len() <= self.max_entries
    }
}

/// The time from `then` to `now`, or none if that lies ahead.
pub open spec fn age(now: u128, then: u128) -> u128 {
    if now >= then {
        (now - then) as u128
    } else {
        0
    }
}

/// Forgetting uses up a completion.
pub proof fn lemma_evict_shrinks(t: TrackerView)
    ensures
        t.completed.len() > 0 ==> t.evict().0.completed.len() < t.completed.len(),
        t.evict().0.completed.len() <= t.completed.len(),
        t.evict().0.retention == t.retention,
        t.evict().0.max_entries == t.max_entries,
    decreases t.completed.len(),
{
    if t.completed.len() > 0 && !t.is_current(t.completed[0]) {
        lemma_evict_shrinks(t.without_first());
    }
}

// --------------------------------------------------------------------- tracker

/// `TransactionTracker` tracks the state of transactions to detect retransmissions.
pub struct TransactionTracker {
    epoch: Instant,
    retention: u128,
    max_entries: usize,
    transactions: TransactionTable,
    completed: VecDeque<(u128, TransactionId)>,
}

/// Completions by the views of their transactions.
pub open spec fn completions(completed: Seq<(u128, TransactionId)>) -> Seq<
    (u128, TransactionKey),
> {
    Seq::new(completed.len(), |i: int| (completed[i].0, completed[i].1@))
}

impl View for TransactionTracker {
    type V = TrackerView;

    closed spec fn view(&self) -> TrackerView {
        TrackerView {
            retention: self.retention,
            max_entries: self.max_entries,
            transactions: self.transactions@,
            completed: completions(self.completed@),
        }
    }
}

impl TransactionTracker {
    /// A tracker that remembers completed transactions for `retention_period`
    /// nanoseconds.
    pub fn new(retention_period: u128) -> (r: TransactionTracker)
        ensures
            r@.retention == retention_period,
            r@.max_entries == MAX_TRACKED_TRANSACTIONS,
            r@.transactions == Map::<TransactionKey, TransactionState>::empty(),
            r@.completed == Seq::<(u128, TransactionKey)>::empty(),
            r@.bounded(),
    {
        TransactionTracker::new_with_capacity(retention_period, MAX_TRACKED_TRANSACTIONS)
    }

    pub fn new_with_capacity(retention_period: u128, max_entries: usize) -> (r: TransactionTracker)
        requires
            max_entries > 0,
        ensures
            r@.retention == retention_period,
            r@.max_entries == max_entries,
            r@.transactions == Map::<TransactionKey, TransactionState>::empty(),
            r@.completed == Seq::<(u128, TransactionKey)>::empty(),
            r@.bounded(),
    {
        let r = TransactionTracker {
            epoch: Instant::now(),
            retention: retention_period,
            max_entries,
            transactions: TransactionTable::new(),
            completed: VecDeque::new(),
        };
        assert(r@.completed =~= Seq::empty());
        r
    }

    /// How many transactions are remembered.
    pub fn len(&self) -> (n: usize)
        ensures
            n == self@.transactions.dom().len(),
    {
        self.transactions.len()
    }

    /// The time since the tracker was made, in nanoseconds.
    fn now(&self) -> u128 {
        self.epoch.elapsed().as_nanos()
    }

    fn evict_oldest_completed(&mut self) -> (r: bool)
        ensures
            (final(self)@, r) == old(self)@.evict(),
    {
        loop
            invariant
                self@.evict() == old(self)@.evict(),
            decreases self@.completed.len(),
        {
            let ghost before = self@;
            match self.completed.pop_front() {
                None => {
                    assert(self@.completed =~= before.completed);
                    return false;
                },
                Some((completed_at, id)) => {
                    assert(before.completed[0] == (completed_at, id@));
                    assert(self@.completed =~= before.completed.skip(1));
                    let is_current = match self.transactions.get(&id) {
                        Some(TransactionState::Completed(current)) => current == completed_at,
                        _ => false,
                    };
                    assert(is_current == before.is_current(before.completed[0]));
                    assert(self@ == before.without_first());
                    if is_current {
                        self.transactions.remove(&id);
                        return true;
                    }
                },
            }
        }
    }

    fn expire_completed(&mut self, now: u128)
        ensures
            final(self)@ == old(self)@.expire(now),
    {
        loop
            invariant
                self@.expire(now) == old(self)@.expire(now),
            decreases self@.completed.len(),
        {
            if self.completed.len() == 0 {
                return ;
            }
            let then: u128 = self.completed[0].0;
            let passed: u128 = if now >= then {
                now - then
            } else {
                0
            };
            if passed < self.retention {
                return ;
            }
            proof {
                lemma_evict_shrinks(self@);
            }
            self.evict_oldest_completed();
        }
    }

    /// As `is_retransmission`, at a given time.
    pub fn is_retransmission_at(
        &mut self,
        now: u128,
        connection_incarnation: u64,
        xid: u32,
        client_addr: &str,
    ) -> (r: bool)
        requires
            old(self)@.bounded(),
        ensures
            (final(self)@, r) == old(self)@.check(
                now,
                (connection_incarnation, xid, client_addr@),
            ),
            final(self)@.bounded(),
    {
        let id = TransactionId { connection_incarnation, xid, client_addr: client_addr.to_owned() };
        let ghost key = id@;
        proof {
            lemma_check_stays_bounded(self@, now, key);
        }
        self.expire_completed(now);
        if self.transactions.get(&id).is_some() {
            return true;
        }
        let ghost fresh = self@;
        while self.transactions.len() >= self.max_entries
            invariant
                self@.make_room() == fresh.make_room(),
                fresh == old(self)@.expire(now),
                !fresh.transactions.contains_key(key),
                key == (connection_incarnation, xid, client_addr@),
                old(self)@.check(now, key).0.bounded(),
            decreases self@.completed.len(),
        {
            proof {
                lemma_evict_shrinks(self@);
                assert(self@.completed.len() == 0 ==> self@.evict() == (self@, false));
            }
            if !self.evict_oldest_completed() {
                return true;
            }
        }
        self.transactions.insert(&id, TransactionState::InProgress);
        false
    }

    /// Checks one transport-scoped transaction identity.
    pub fn is_retransmission(
        &mut self,
        connection_incarnation: u64,
        xid: u32,
        client_addr: &str,
    ) -> (r: bool)
        requires
            old(self)@.bounded(),
        ensures
            exists|now: u128|
                (final(self)@, r) == #[trigger] old(self)@.check(
                    now,
                    (connection_incarnation, xid, client_addr@),
                ),
            final(self)@.bounded(),
    {
        let now: u128 = self.now();
        self.is_retransmission_at(now, connection_incarnation, xid, client_addr)
    }

    /// As `mark_processed`, at a given time.
    pub fn mark_processed_at(
        &mut self,
        now: u128,
        connection_incarnation: u64,
        xid: u32,
        client_addr: &str,
    )
        requires
            old(self)@.bounded(),
        ensures
            final(self)@ == old(self)@.complete(now, (connection_incarnation, xid, client_addr@)),
            final(self)@.bounded(),
    {
        let id = TransactionId { connection_incarnation, xid, client_addr: client_addr.to_owned() };
        if self.transactions.get(&id).is_some() {
            let ghost before = self@;
            self.transactions.insert(&id, TransactionState::Completed(now));
            self.completed.push_back((now, id));
            assert(self@.completed =~= before.completed.push((now, id@)));
            assert(before.transactions.dom().insert(id@) =~= before.transactions.dom());
        }
    }

    /// Marks a transaction as processed; one that is not remembered stays so.
    pub fn mark_processed(&mut self, connection_incarnation: u64, xid: u32, client_addr: &str)
        requires
            old(self)@.bounded(),
        ensures
            exists|now: u128|
                final(self)@ == #[trigger] old(self)@.complete(
                    now,
                    (connection_incarnation, xid, client_addr@),
                ),
            final(self)@.bounded(),
    {
        let now: u128 = self.now();
        self.mark_processed_at(now, connection_incarnation, xid, client_addr);
    }
}

// ------------------------------------------------------------------------ laws

/// What forgetting can do to the transactions: they become fewer, by completed
/// ones only.
pub open spec fn forgets_completed_only(before: TrackerView, after: TrackerView) -> bool {
    &&& after.retention == before.retention
    &&& after.max_entries == before.max_entries
    &&& adds_nothing(before.transactions, after.transactions)
    &&& keeps_in_progress(before.transactions, after.transactions)
}

/// Each transaction that is there after was there before, in the same state.
pub open spec fn adds_nothing(
    before: Map<TransactionKey, TransactionState>,
    after: Map<TransactionKey, TransactionState>,
) -> bool {
    forall|key: TransactionKey| #[trigger]
        after.contains_key(key) ==> before.contains_key(key) && after[key] == before[key]
}

/// Each transaction that is in progress before is there after.
pub open spec fn keeps_in_progress(
    before: Map<TransactionKey, TransactionState>,
    after: Map<TransactionKey, TransactionState>,
) -> bool {
    forall|key: TransactionKey| #[trigger]
        before.contains_key(key) && before[key] == TransactionState::InProgress
            ==> after.contains_key(key)
}

proof fn lemma_forgetting_adds_up(a: TrackerView, b: TrackerView, c: TrackerView)
    requires
        forgets_completed_only(a, b),
        forgets_completed_only(b, c),
    ensures
        forgets_completed_only(a, c),
{
    assert forall|key: TransactionKey| #[trigger]
        c.transactions.contains_key(key) implies a.transactions.contains_key(key)
        && c.transactions[key] == a.transactions[key] by {
        assert(b.transactions.contains_key(key));
    }
    assert forall|key: TransactionKey| #[trigger]
        a.transactions.contains_key(key) && a.transactions[key]
            == TransactionState::InProgress implies c.transactions.contains_key(key) by {
        assert(b.transactions.contains_key(key));
    }
}

/// Where every transaction is in progress, nothing is forgotten.
proof fn lemma_none_forgotten(before: TrackerView, after: TrackerView)
    requires
        forgets_completed_only(before, after),
        forall|k: TransactionKey| #[trigger]
            before.transactions.contains_key(k) ==> before.transactions[k]
                == TransactionState::InProgress,
    ensures
        after.transactions == before.transactions,
{
    assert forall|key: TransactionKey|
        after.transactions.contains_key(key) == #[trigger] before.transactions.contains_key(
            key,
        ) by {}
    assert(after.transactions.dom() =~= before.transactions.dom());
    assert(after.transactions =~= before.transactions);
}

proof fn lemma_evict_forgets(t: TrackerView)
    requires
        t.transactions.dom().finite(),
    ensures
        forgets_completed_only(t, t.evict().0),
        t.evict().0.transactions.dom().finite(),
        t.evict().0.transactions.dom().len() <= t.transactions.dom().len(),
        t.evict().1 ==> t.evict().0.transactions.dom().len() < t.transactions.dom().len(),
    decreases t.completed.len(),
{
    if t.completed.len() > 0 && !t.is_current(t.completed[0]) {
        lemma_evict_forgets(t.without_first());
    }
}

proof fn lemma_expire_forgets(t: TrackerView, now: u128)
    requires
        t.transactions.dom().finite(),
    ensures
        forgets_completed_only(t, t.expire(now)),
        t.expire(now).transactions.dom().finite(),
        t.expire(now).transactions.dom().len() <= t.transactions.dom().len(),
    decreases t.completed.len(),
{
    if t.first_is_old(now) {
        lemma_evict_shrinks(t);
        lemma_evict_forgets(t);
        lemma_expire_forgets(t.evict().0, now);
        lemma_forgetting_adds_up(t, t.evict().0, t.expire(now));
    }
}

proof fn lemma_make_room_forgets(t: TrackerView)
    requires
        t.transactions.dom().finite(),
    ensures
        forgets_completed_only(t, t.make_room().0),
        t.make_room().0.transactions.dom().finite(),
        t.make_room().0.transactions.dom().len() <= t.transactions.dom().len(),
        t.make_room().1 ==> t.make_room().0.transactions.dom().len() < t.max_entries,
    decreases t.completed.len(),
{
    if t.transactions.dom().len() >= t.max_entries && t.completed.len() > 0 {
        lemma_evict_shrinks(t);
        lemma_evict_forgets(t);
        if t.evict().1 {
            lemma_make_room_forgets(t.evict().0);
            lemma_forgetting_adds_up(t, t.evict().0, t.make_room().0);
        }
    }
}

/// No more is ever remembered than there is room for.
pub proof fn lemma_check_stays_bounded(t: TrackerView, now: u128, key: TransactionKey)
    requires
        t.bounded(),
    ensures
        t.check(now, key).0.bounded(),
        t.expire(now).bounded(),
        t.expire(now).make_room().0.bounded(),
{
    lemma_expire_forgets(t, now);
    lemma_make_room_forgets(t.expire(now));
}

/// A transaction that is in progress is never forgotten: while it has not been
/// marked as processed, every further call with its identity is a retransmission,
/// whatever other calls are checked in between.
pub proof fn lemma_in_progress_is_a_retransmission(
    t: TrackerView,
    now: u128,
    other: TransactionKey,
    later: u128,
    key: TransactionKey,
)
    requires
        t.bounded(),
        t.transactions.contains_key(key),
        t.transactions[key] == TransactionState::InProgress,
    ensures
        t.check(later, key).1,
        t.check(now, other).0.transactions.contains_key(key),
        t.check(now, other).0.transactions[key] == TransactionState::InProgress,
        t.check(now, other).0.check(later, key).1,
{
    lemma_expire_forgets(t, now);
    lemma_make_room_forgets(t.expire(now));
    lemma_expire_forgets(t, later);
    let after = t.check(now, other).0;
    lemma_check_stays_bounded(t, now, other);
    lemma_expire_forgets(after, later);
    assert(t.expire(now).transactions.contains_key(key));
    assert(t.expire(now).make_room().0.transactions.contains_key(key));
    assert(after.transactions.contains_key(key));
    assert(after.expire(later).transactions.contains_key(key));
}

/// A call that was let through is in progress from then on.
pub proof fn lemma_new_call_is_in_progress(t: TrackerView, now: u128, key: TransactionKey)
    requires
        !t.check(now, key).1,
    ensures
        t.check(now, key).0.transactions.contains_key(key),
        t.check(now, key).0.transactions[key] == TransactionState::InProgress,
{
}

/// An identity that has not been seen is let through wherever there is room. In
/// particular the same transaction id of the same client on another connection
/// incarnation is another transaction.
pub proof fn lemma_unseen_is_let_through(t: TrackerView, now: u128, key: TransactionKey)
    requires
        t.bounded(),
        !t.transactions.contains_key(key),
        t.transactions.dom().len() < t.max_entries,
    ensures
        !t.check(now, key).1,
{
    lemma_expire_forgets(t, now);
}

/// Checking one identity does not make another one seen.
pub proof fn lemma_identities_do_not_mix(
    t: TrackerView,
    now: u128,
    seen: TransactionKey,
    key: TransactionKey,
)
    requires
        t.bounded(),
        seen != key,
        !t.transactions.contains_key(key),
    ensures
        !t.check(now, seen).0.transactions.contains_key(key),
{
    lemma_expire_forgets(t, now);
    lemma_make_room_forgets(t.expire(now));
    assert(!t.expire(now).transactions.dom().contains(key));
    assert(!t.expire(now).make_room().0.transactions.dom().contains(key));
}

/// Where every place is taken by a transaction in progress, a new call is taken
/// for a retransmission and nothing is forgotten.
pub proof fn lemma_full_fails_closed(t: TrackerView, now: u128, key: TransactionKey)
    requires
        t.bounded(),
        t.transactions.dom().len() == t.max_entries,
        forall|k: TransactionKey| #[trigger]
            t.transactions.contains_key(k) ==> t.transactions[k] == TransactionState::InProgress,
    ensures
        t.check(now, key).1,
        t.check(now, key).0.transactions == t.transactions,
{
    lemma_expire_forgets(t, now);
    let fresh = t.expire(now);
    lemma_none_forgotten(t, fresh);
    lemma_make_room_forgets(fresh);
    let (roomy, room) = fresh.make_room();
    lemma_none_forgotten(fresh, roomy);
}

/// Each completion is the one that its transaction stands at, and none is there
/// twice: the state of a tracker in which a call is marked once, while it is in
/// progress.
pub open spec fn orderly(t: TrackerView) -> bool {
    &&& forall|i: int| 0 <= i < t.completed.len() ==> t.is_current(#[trigger] t.completed[i])
    &&& forall|i: int, j: int|
        #![trigger t.completed[i], t.completed[j]]
        0 <= i < j < t.completed.len() ==> t.completed[i].1 != t.completed[j].1
}

proof fn lemma_orderly_evict(t: TrackerView)
    requires
        orderly(t),
    ensures
        orderly(t.evict().0),
        t.completed.len() > 0 ==> t.evict().1 && t.evict().0.completed == t.completed.skip(1)
            && t.evict().0.transactions == t.transactions.remove(t.completed[0].1),
{
    if t.completed.len() > 0 {
        assert(t.is_current(t.completed[0]));
        let e = t.evict().0;
        assert forall|i: int| 0 <= i < e.completed.len() implies e.is_current(
            #[trigger] e.completed[i],
        ) by {
            assert(e.completed[i] == t.completed[i + 1]);
            assert(t.completed[0].1 != t.completed[i + 1].1);
            assert(t.is_current(t.completed[i + 1]));
        }
        assert forall|i: int, j: int|
            #![trigger e.completed[i], e.completed[j]]
            0 <= i < j < e.completed.len() implies e.completed[i].1 != e.completed[j].1 by {
            assert(e.completed[i] == t.completed[i + 1]);
            assert(e.completed[j] == t.completed[j + 1]);
        }
    }
}

/// Calls that are marked once, while they are in progress, leave the tracker
/// orderly; so does every check.
pub proof fn lemma_orderly_is_kept(t: TrackerView, now: u128, key: TransactionKey)
    requires
        t.bounded(),
        orderly(t),
    ensures
        orderly(t.check(now, key).0),
        t.transactions.contains_key(key) && t.transactions[key] == TransactionState::InProgress
            ==> orderly(t.complete(now, key)),
{
    lemma_orderly_expire(t, now);
    let fresh = t.expire(now);
    lemma_orderly_make_room(fresh);
    let roomy = fresh.make_room().0;
    if !fresh.transactions.contains_key(key) {
        lemma_expire_forgets(t, now);
        lemma_make_room_forgets(fresh);
        let after = t.check(now, key).0;
        assert forall|i: int| 0 <= i < after.completed.len() implies after.is_current(
            #[trigger] after.completed[i],
        ) by {
            assert(roomy.is_current(roomy.completed[i]));
            assert(roomy.completed[i].1 != key);
        }
    }
    if t.transactions.contains_key(key) && t.transactions[key] == TransactionState::InProgress {
        let done = t.complete(now, key);
        assert forall|i: int| 0 <= i < done.completed.len() implies done.is_current(
            #[trigger] done.completed[i],
        ) by {
            if i < t.completed.len() {
                assert(t.is_current(t.completed[i]));
            }
        }
        assert forall|i: int, j: int|
            #![trigger done.completed[i], done.completed[j]]
            0 <= i < j < done.completed.len() implies done.completed[i].1
            != done.completed[j].1 by {
            assert(t.is_current(t.completed[i]));
        }
    }
}

proof fn lemma_orderly_expire(t: TrackerView, now: u128)
    requires
        orderly(t),
    ensures
        orderly(t.expire(now)),
    decreases t.completed.len(),
{
    if t.first_is_old(now) {
        lemma_evict_shrinks(t);
        lemma_orderly_evict(t);
        lemma_orderly_expire(t.evict().0, now);
    }
}

proof fn lemma_orderly_make_room(t: TrackerView)
    requires
        orderly(t),
    ensures
        orderly(t.make_room().0),
    decreases t.completed.len(),
{
    if t.transactions.dom().len() >= t.max_entries && t.completed.len() > 0 {
        lemma_evict_shrinks(t);
        lemma_orderly_evict(t);
        if t.evict().1 {
            lemma_orderly_make_room(t.evict().0);
        }
    }
}

/// A completed transaction stays a retransmission until the retention period is
/// over.
pub proof fn lemma_completed_is_remembered(
    t: TrackerView,
    now: u128,
    key: TransactionKey,
    then: u128,
)
    requires
        t.bounded(),
        orderly(t),
        t.transactions.contains_key(key),
        t.transactions[key] == TransactionState::Completed(then),
        age(now, then) < t.retention,
    ensures
        t.check(now, key).1,
{
    lemma_young_survives(t, now, key, then);
}

proof fn lemma_young_survives(t: TrackerView, now: u128, key: TransactionKey, then: u128)
    requires
        orderly(t),
        t.transactions.contains_key(key),
        t.transactions[key] == TransactionState::Completed(then),
        age(now, then) < t.retention,
    ensures
        t.expire(now).transactions.contains_key(key),
    decreases t.completed.len(),
{
    if t.first_is_old(now) {
        lemma_evict_shrinks(t);
        lemma_orderly_evict(t);
        assert(t.is_current(t.completed[0]));
        lemma_young_survives(t.evict().0, now, key, then);
    }
}

/// The completions are in the order of their times.
pub open spec fn in_time_order(t: TrackerView) -> bool {
    forall|i: int, j: int|
        #![trigger t.completed[i], t.completed[j]]
        0 <= i < j < t.completed.len() ==> t.completed[i].0 <= t.completed[j].0
}

proof fn lemma_evict_keeps_time_order(t: TrackerView)
    requires
        in_time_order(t),
    ensures
        in_time_order(t.evict().0),
    decreases t.completed.len(),
{
    if t.completed.len() > 0 {
        let rest = t.without_first();
        assert forall|i: int, j: int|
            #![trigger rest.completed[i], rest.completed[j]]
            0 <= i < j < rest.completed.len() implies rest.completed[i].0
            <= rest.completed[j].0 by {
            assert(rest.completed[i] == t.completed[i + 1]);
            assert(rest.completed[j] == t.completed[j + 1]);
        }
        if !t.is_current(t.completed[0]) {
            lemma_evict_keeps_time_order(rest);
        }
    }
}

proof fn lemma_expire_keeps_time_order(t: TrackerView, now: u128)
    requires
        in_time_order(t),
    ensures
        in_time_order(t.expire(now)),
    decreases t.completed.len(),
{
    if t.first_is_old(now) {
        lemma_evict_shrinks(t);
        lemma_evict_keeps_time_order(t);
        lemma_expire_keeps_time_order(t.evict().0, now);
    }
}

proof fn lemma_make_room_keeps_time_order(t: TrackerView)
    requires
        in_time_order(t),
    ensures
        in_time_order(t.make_room().0),
    decreases t.completed.len(),
{
    if t.transactions.dom().len() >= t.max_entries && t.completed.len() > 0 {
        lemma_evict_shrinks(t);
        lemma_evict_keeps_time_order(t);
        if t.evict().1 {
            lemma_make_room_keeps_time_order(t.evict().0);
        }
    }
}

/// The completions of a new tracker are in the order of their times. They stay so
/// under every check, and under every marking that is not earlier than the last.
pub proof fn lemma_time_order_is_kept(t: TrackerView, now: u128, key: TransactionKey)
    ensures
        t.completed.len() == 0 ==> in_time_order(t),
        in_time_order(t) ==> in_time_order(t.check(now, key).0),
        in_time_order(t) && (t.completed.len() > 0 ==> t.completed.last().0 <= now)
            ==> in_time_order(t.complete(now, key)),
{
    if in_time_order(t) {
        lemma_expire_keeps_time_order(t, now);
        lemma_make_room_keeps_time_order(t.expire(now));
        let checked = t.check(now, key).0;
        assert(checked.completed == t.expire(now).completed || checked.completed == t.expire(
            now,
        ).make_room().0.completed);
        if t.completed.len() > 0 ==> t.completed.last().0 <= now {
            let done = t.complete(now, key);
            assert forall|i: int, j: int|
                #![trigger done.completed[i], done.completed[j]]
                0 <= i < j < done.completed.len() implies done.completed[i].0
                <= done.completed[j].0 by {
                if j == t.completed.len() {
                    assert(t.completed[i].0 <= t.completed[t.completed.len() - 1].0);
                }
            }
        }
    }
}

/// After the retention period a completed transaction is forgotten, and a call
/// with its identity is let through again.
pub proof fn lemma_completed_expires(t: TrackerView, now: u128, i: int)
    requires
        t.bounded(),
        orderly(t),
        in_time_order(t),
        0 <= i < t.completed.len(),
        age(now, t.completed[i].0) >= t.retention,
    ensures
        !t.check(now, t.completed[i].1).1,
{
    lemma_old_is_forgotten(t, now, i);
    lemma_expire_forgets(t, now);
    let fresh = t.expire(now);
    assert(t.is_current(t.completed[i]));
    assert(fresh.transactions.dom().subset_of(t.transactions.dom().remove(t.completed[i].1)));
    vstd::set_lib::lemma_len_subset(
        fresh.transactions.dom(),
        t.transactions.dom().remove(t.completed[i].1),
    );
}

proof fn lemma_old_is_forgotten(t: TrackerView, now: u128, i: int)
    requires
        orderly(t),
        in_time_order(t),
        t.transactions.dom().finite(),
        0 <= i < t.completed.len(),
        age(now, t.completed[i].0) >= t.retention,
    ensures
        !t.expire(now).transactions.contains_key(t.completed[i].1),
    decreases t.completed.len(),
{
    if i > 0 {
        assert(t.completed[0].0 <= t.completed[i].0);
    }
    assert(t.first_is_old(now));
    lemma_evict_shrinks(t);
    lemma_orderly_evict(t);
    let e = t.evict().0;
    assert forall|a: int, b: int|
        #![trigger e.completed[a], e.completed[b]]
        0 <= a < b < e.completed.len() implies e.completed[a].0 <= e.completed[b].0 by {
        assert(e.completed[a] == t.completed[a + 1]);
        assert(e.completed[b] == t.completed[b + 1]);
    }
    if i > 0 {
        assert(e.completed[i - 1] == t.completed[i]);
        lemma_old_is_forgotten(e, now, i - 1);
    } else {
        lemma_expire_forgets(e, now);
    }
}

/// Marking a call as processed touches that call alone: it is completed at that
/// time if it was remembered, and every other transaction stays as it is.
pub proof fn lemma_marking_touches_one(
    t: TrackerView,
    now: u128,
    key: TransactionKey,
    other: TransactionKey,
)
    ensures
        ({
            let done = t.complete(now, key);
            &&& done.transactions.contains_key(key) <==> t.transactions.contains_key(key)
            &&& done.transactions.contains_key(key) ==> done.transactions[key]
                == TransactionState::Completed(now)
            &&& other != key ==> (done.transactions.contains_key(other)
                <==> t.transactions.contains_key(other))
            &&& other != key && done.transactions.contains_key(other) ==> done.transactions[other]
                == t.transactions[other]
            &&& done.retention == t.retention
            &&& done.max_entries == t.max_entries
        }),
{
}

/// Where there is room, checking a new call forgets nothing but what is old: if
/// nothing has been completed for as long as the retention period, every
/// transaction that was remembered still is, as it was, and the new one besides.
pub proof fn lemma_room_forgets_nothing(t: TrackerView, now: u128, key: TransactionKey)
    requires
        t.bounded(),
        t.transactions.dom().len() < t.max_entries,
        forall|i: int|
            0 <= i < t.completed.len() ==> age(now, (#[trigger] t.completed[i]).0) < t.retention,
    ensures
        t.transactions.contains_key(key) ==> t.check(now, key) == (t, true),
        !t.transactions.contains_key(key) ==> !t.check(now, key).1 && t.check(
            now,
            key,
        ).0.transactions == t.transactions.insert(key, TransactionState::InProgress),
        t.check(now, key).0.completed == t.completed,
{
    assert(!t.first_is_old(now));
}

/// Where there is no room, the transaction that was completed first makes room for
/// a new one, and no other is forgotten.
pub proof fn lemma_oldest_makes_room(t: TrackerView, now: u128, key: TransactionKey)
    requires
        t.bounded(),
        orderly(t),
        t.transactions.dom().len() == t.max_entries,
        t.completed.len() > 0,
        forall|i: int|
            0 <= i < t.completed.len() ==> age(now, (#[trigger] t.completed[i]).0) < t.retention,
        !t.transactions.contains_key(key),
    ensures
        !t.check(now, key).1,
        t.check(now, key).0.transactions == t.transactions.remove(t.completed[0].1).insert(
            key,
            TransactionState::InProgress,
        ),
{
    assert(!t.first_is_old(now));
    lemma_orderly_evict(t);
    lemma_evict_shrinks(t);
    assert(t.is_current(t.completed[0]));
    let left = t.evict().0;
    assert(left.transactions.dom() =~= t.transactions.dom().remove(t.completed[0].1));
    assert(left.make_room() == (left, true));
}

/// A call is let through only if nothing is remembered of it once what is old is
/// forgotten; so none that is in progress ever is.
pub proof fn lemma_remembered_is_never_let_through(
    t: TrackerView,
    now: u128,
    key: TransactionKey,
)
    requires
        t.bounded(),
        !t.check(now, key).1,
    ensures
        !t.expire(now).transactions.contains_key(key),
        t.transactions.contains_key(key) ==> t.transactions[key] != TransactionState::InProgress,
{
    lemma_expire_forgets(t, now);
}

/// A call that was processed is taken for a retransmission for as long as the
/// retention period has not passed since, and is let through again once it has.
pub proof fn lemma_retention_is_a_time(t: TrackerView, now: u128, i: int)
    requires
        t.bounded(),
        orderly(t),
        in_time_order(t),
        0 <= i < t.completed.len(),
    ensures
        now - t.completed[i].0 < t.retention && t.retention > 0 ==> t.check(
            now,
            t.completed[i].1,
        ).1,
        now - t.completed[i].0 >= t.retention && now >= t.completed[i].0 ==> !t.check(
            now,
            t.completed[i].1,
        ).1,
{
    let (then, key) = t.completed[i];
    assert(t.is_current(t.completed[i]));
    if age(now, then) < t.retention {
        lemma_completed_is_remembered(t, now, key, then);
    } else {
        lemma_completed_expires(t, now, i);
    }
}

} // verus!
