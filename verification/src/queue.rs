//! The work queue: at most one entry per key, each either waiting for its time
//! or handed to a worker.
//!
//! Time is a plain `u64` count of milliseconds on whatever monotonic clock the
//! caller reads; the queue never reads a clock itself.

use vstd::prelude::*;
use crate::key::{KeyView, ObjectKey};

verus! {

/// Where a key stands in the queue.
#[derive(Clone, Copy, Debug, PartialEq, Eq)]
pub enum Phase {
    /// Waiting: eligible once the clock has reached `not_before`.
    Pending { not_before: u64 },
    /// Handed to a worker and not yet acknowledged. `requeue` is the earliest
    /// time asked for by the enqueues that arrived since.
    InFlight { requeue: Option<u64> },
}

/// One entry of the queue, as contracts see it.
pub struct Item {
    pub key: KeyView,
    pub phase: Phase,
}

/// The earlier of two times.
pub open spec fn earlier(a: u64, b: u64) -> u64 {
    if a <= b {
        a
    } else {
        b
    }
}

/// No key occurs in two entries.
pub open spec fn distinct_keys(q: Seq<Item>) -> bool {
    forall|i: int, j: int| 0 <= i < j < q.len() ==> (#[trigger] q[i]).key != (#[trigger] q[j]).key
}

/// Some entry of `q` belongs to `k`.
pub open spec fn holds(q: Seq<Item>, k: KeyView) -> bool {
    exists|i: int| 0 <= i < q.len() && (#[trigger] q[i]).key == k
}

/// Position of the entry of `k`; meaningful where `holds(q, k)`.
pub open spec fn slot(q: Seq<Item>, k: KeyView) -> int {
    choose|i: int| 0 <= i < q.len() && (#[trigger] q[i]).key == k
}

/// The phase of `k`, or `None` where the queue does not know the key.
pub open spec fn phase_of(q: Seq<Item>, k: KeyView) -> Option<Phase> {
    if holds(q, k) {
        Some(q[slot(q, k)].phase)
    } else {
        None
    }
}

/// Whether `k` is with a worker.
pub open spec fn in_flight(q: Seq<Item>, k: KeyView) -> bool {
    phase_of(q, k) matches Some(Phase::InFlight { .. })
}

/// Whether `k` waits and its time has come at `now`.
pub open spec fn is_ready(q: Seq<Item>, k: KeyView, now: u64) -> bool {
    match phase_of(q, k) {
        Some(Phase::Pending { not_before }) => not_before <= now,
        _ => false,
    }
}

/// The time that `k` waits for; meaningful where `k` waits.
pub open spec fn waits_for(q: Seq<Item>, k: KeyView) -> u64 {
    match phase_of(q, k) {
        Some(Phase::Pending { not_before }) => not_before,
        _ => u64::MAX,
    }
}

/// A phase after one more request for time `at`: never later than before.
pub open spec fn hastened(p: Phase, at: u64) -> Phase {
    match p {
        Phase::Pending { not_before } => Phase::Pending { not_before: earlier(not_before, at) },
        Phase::InFlight { requeue: Some(t) } => Phase::InFlight { requeue: Some(earlier(t, at)) },
        Phase::InFlight { requeue: None } => Phase::InFlight { requeue: Some(at) },
    }
}

/// The queue after a request to run `k` at time `at`.
pub open spec fn enqueued(q: Seq<Item>, k: KeyView, at: u64) -> Seq<Item> {
    if holds(q, k) {
        let i = slot(q, k);
        q.update(i, Item { key: k, phase: hastened(q[i].phase, at) })
    } else {
        q.push(Item { key: k, phase: Phase::Pending { not_before: at } })
    }
}

/// The entry waits and its time has come.
pub open spec fn ready(item: Item, now: u64) -> bool {
    item.phase matches Phase::Pending { not_before } && not_before <= now
}

/// The time a waiting entry waits for.
pub open spec fn due(item: Item) -> u64 {
    match item.phase {
        Phase::Pending { not_before } => not_before,
        Phase::InFlight { .. } => u64::MAX,
    }
}

/// Entry `i` is the one to hand out at `now`: it is ready, no ready entry is
/// due earlier, and of those due at the same time it stands first.
pub open spec fn is_choice(q: Seq<Item>, now: u64, i: int) -> bool {
    &&& 0 <= i < q.len()
    &&& ready(q[i], now)
    &&& forall|j: int|
        0 <= j < q.len() && ready(#[trigger] q[j], now) ==> due(q[i]) < due(q[j]) || (due(q[i])
            == due(q[j]) && i <= j)
}

/// Position of the entry to hand out at `now`, if any entry is ready.
pub open spec fn choice(q: Seq<Item>, now: u64) -> Option<int> {
    if exists|i: int| is_choice(q, now, i) {
        Some(choose|i: int| is_choice(q, now, i))
    } else {
        None
    }
}

/// The key handed out at `now`.
pub open spec fn served(q: Seq<Item>, now: u64) -> Option<KeyView> {
    match choice(q, now) {
        Some(i) => Some(q[i].key),
        None => None,
    }
}

/// The queue after handing out at `now`.
pub open spec fn dequeued(q: Seq<Item>, now: u64) -> Seq<Item> {
    match choice(q, now) {
        Some(i) => q.update(i, Item { key: q[i].key, phase: Phase::InFlight { requeue: None } }),
        None => q,
    }
}

/// The queue after the worker on `k` has reported back.
pub open spec fn acked(q: Seq<Item>, k: KeyView) -> Seq<Item> {
    match phase_of(q, k) {
        Some(Phase::InFlight { requeue: Some(t) }) => q.update(
            slot(q, k),
            Item { key: k, phase: Phase::Pending { not_before: t } },
        ),
        Some(Phase::InFlight { requeue: None }) => q.remove(slot(q, k)),
        _ => q,
    }
}

/// The time the earliest waiting entry waits for.
pub open spec fn is_next_due(q: Seq<Item>, t: u64) -> bool {
    &&& exists|i: int| 0 <= i < q.len() && (#[trigger] q[i]).phase == (Phase::Pending { not_before: t })
    &&& forall|j: int|
        0 <= j < q.len() ==> ((#[trigger] q[j]).phase matches Phase::Pending { not_before } ==> t
            <= not_before)
}

/// Number of entries that are with a worker.
pub open spec fn busy(q: Seq<Item>) -> nat
    decreases q.len(),
{
    if q.len() == 0 {
        0
    } else {
        busy(q.drop_last()) + if q.last().phase is InFlight {
            1nat
        } else {
            0nat
        }
    }
}

/// In a queue without repeated keys an entry is found at its own position.
pub proof fn lemma_slot(q: Seq<Item>, i: int)
    requires
        distinct_keys(q),
        0 <= i < q.len(),
    ensures
        holds(q, q[i].key),
        slot(q, q[i].key) == i,
        phase_of(q, q[i].key) == Some(q[i].phase),
{
    let k = q[i].key;
    let j = slot(q, k);
    assert(0 <= j < q.len() && q[j].key == k);
    if j < i {
        assert(q[j].key != q[i].key);
    } else if i < j {
        assert(q[i].key != q[j].key);
    }
}

/// At most one entry can be the choice.
pub proof fn lemma_choice_unique(q: Seq<Item>, now: u64, i: int)
    requires
        is_choice(q, now, i),
    ensures
        choice(q, now) == Some(i),
        served(q, now) == Some(q[i].key),
{
    let c = choose|c: int| is_choice(q, now, c);
    assert(is_choice(q, now, c));
    assert(ready(q[c], now));
    assert(ready(q[i], now));
}

/// Where nothing is ready nothing is chosen.
pub proof fn lemma_no_choice(q: Seq<Item>, now: u64)
    requires
        forall|j: int| 0 <= j < q.len() ==> !ready(#[trigger] q[j], now),
    ensures
        choice(q, now) is None,
        served(q, now) is None,
        dequeued(q, now) == q,
{
    if exists|i: int| is_choice(q, now, i) {
        let i = choose|i: int| is_choice(q, now, i);
        assert(ready(q[i], now));
    }
}

/// Changing the phase of one entry changes the count of busy entries by that
/// entry alone.
pub proof fn lemma_busy_update(q: Seq<Item>, i: int, item: Item)
    requires
        0 <= i < q.len(),
    ensures
        busy(q.update(i, item)) + (if q[i].phase is InFlight {
            1nat
        } else {
            0nat
        }) == busy(q) + (if item.phase is InFlight {
            1nat
        } else {
            0nat
        }),
    decreases q.len(),
{
    let u = q.update(i, item);
    if i == q.len() - 1 {
        assert(u.drop_last() =~= q.drop_last());
    } else {
        assert(u.drop_last() =~= q.drop_last().update(i, item));
        lemma_busy_update(q.drop_last(), i, item);
    }
}

/// Taking an entry out lowers the count of busy entries by that entry alone.
pub proof fn lemma_busy_remove(q: Seq<Item>, i: int)
    requires
        0 <= i < q.len(),
    ensures
        busy(q.remove(i)) + (if q[i].phase is InFlight {
            1nat
        } else {
            0nat
        }) == busy(q),
    decreases q.len(),
{
    let r = q.remove(i);
    if i == q.len() - 1 {
        assert(r =~= q.drop_last());
    } else {
        assert(r.drop_last() =~= q.drop_last().remove(i));
        assert(r.last() == q.last());
        lemma_busy_remove(q.drop_last(), i);
    }
}

/// A request changes no count of busy entries.
pub proof fn lemma_busy_enqueued(q: Seq<Item>, k: KeyView, at: u64)
    ensures
        busy(enqueued(q, k, at)) == busy(q),
{
    if holds(q, k) {
        let i = slot(q, k);
        lemma_busy_update(q, i, Item { key: k, phase: hastened(q[i].phase, at) });
    } else {
        let item = Item { key: k, phase: Phase::Pending { not_before: at } };
        assert(q.push(item).drop_last() =~= q);
    }
}

/// Handing a key out makes one more entry busy.
pub proof fn lemma_busy_dequeued(q: Seq<Item>, now: u64)
    ensures
        busy(dequeued(q, now)) == busy(q) + (if served(q, now) is Some {
            1nat
        } else {
            0nat
        }),
{
    match choice(q, now) {
        Some(i) => {
            assert(is_choice(q, now, i));
            lemma_busy_update(
                q,
                i,
                Item { key: q[i].key, phase: Phase::InFlight { requeue: None } },
            );
        },
        None => {},
    }
}

/// A worker's report makes one entry less busy, where the key was with a
/// worker at all.
pub proof fn lemma_busy_acked(q: Seq<Item>, k: KeyView)
    ensures
        busy(acked(q, k)) + (if in_flight(q, k) {
            1nat
        } else {
            0nat
        }) == busy(q),
{
    match phase_of(q, k) {
        Some(Phase::InFlight { requeue: Some(t) }) => {
            let i = slot(q, k);
            assert(0 <= i < q.len() && q[i].key == k);
            lemma_busy_update(q, i, Item { key: k, phase: Phase::Pending { not_before: t } });
        },
        Some(Phase::InFlight { requeue: None }) => {
            let i = slot(q, k);
            assert(0 <= i < q.len() && q[i].key == k);
            lemma_busy_remove(q, i);
        },
        _ => {},
    }
}

struct Entry {
    key: ObjectKey,
    phase: Phase,
}

/// The work queue. It holds at most one entry per key; a key it does not hold
/// is neither waiting nor with a worker.
pub struct WorkQueue {
    entries: Vec<Entry>,
}

impl View for WorkQueue {
    type V = Seq<Item>;

    closed spec fn view(&self) -> Seq<Item> {
        Seq::new(
            self.entries@.len(),
            |i: int| Item { key: self.entries@[i].key@, phase: self.entries@[i].phase },
        )
    }
}

impl WorkQueue {
    /// What every queue made and changed through this interface satisfies:
    /// no key has two entries.
    pub open spec fn wf(&self) -> bool {
        distinct_keys(self@)
    }

    /// An empty queue.
    pub fn new() -> (q: WorkQueue)
        ensures
            q.wf(),
            q@ == Seq::<Item>::empty(),
    {
        WorkQueue { entries: Vec::new() }
    }

    /// Number of keys the queue knows, waiting or with a worker.
    pub fn len(&self) -> (n: usize)
        ensures
            n == self@.len(),
    {
        self.entries.len()
    }

    fn find(&self, key: &ObjectKey) -> (r: Option<usize>)
        requires
            self.wf(),
        ensures
            match r {
                Some(i) => i < self@.len() && self@[i as int].key == key@ && holds(self@, key@)
                    && slot(self@, key@) == i,
                None => !holds(self@, key@),
            },
    {
        let mut i: usize = 0;
        while i < self.entries.len()
            invariant
                i <= self.entries.len(),
                distinct_keys(self@),
                forall|j: int| 0 <= j < i ==> (#[trigger] self@[j]).key != key@,
            decreases self.entries.len() - i,
        {
            if self.entries[i].key.same(key) {
                proof {
                    lemma_slot(self@, i as int);
                }
                return Some(i);
            }
            i += 1;
        }
        None
    }

    /// The phase of `key`: `None` where the queue does not know it.
    pub fn phase(&self, key: &ObjectKey) -> (p: Option<Phase>)
        requires
            self.wf(),
        ensures
            p == phase_of(self@, key@),
    {
        match self.find(key) {
            Some(i) => Some(self.entries[i].phase),
            None => None,
        }
    }

    /// Asks for `key` to run `delay` after `now`. A key the queue already
    /// holds keeps its single entry, moved forward if the new time is earlier
    /// and never moved back; for a key that is with a worker the request is
    /// kept until the worker reports back.
    pub fn enqueue(&mut self, key: ObjectKey, now: u64, delay: u64)
        requires
            old(self).wf(),
            now + delay <= u64::MAX,
        ensures
            final(self).wf(),
            final(self)@ == enqueued(old(self)@, key@, (now + delay) as u64),
    {
        let at = now + delay;
        match self.find(&key) {
            Some(i) => {
                let phase = match self.entries[i].phase {
                    Phase::Pending { not_before } => Phase::Pending {
                        not_before: if not_before <= at {
                            not_before
                        } else {
                            at
                        },
                    },
                    Phase::InFlight { requeue: Some(t) } => Phase::InFlight {
                        requeue: Some(
                            if t <= at {
                                t
                            } else {
                                at
                            },
                        ),
                    },
                    Phase::InFlight { requeue: None } => Phase::InFlight { requeue: Some(at) },
                };
                self.entries[i] = Entry { key, phase };
                assert(self@ =~= enqueued(old(self)@, key@, at));
            },
            None => {
                self.entries.push(Entry { key, phase: Phase::Pending { not_before: at } });
                assert(self@ =~= enqueued(old(self)@, key@, at));
            },
        }
    }

    /// Hands out the key to work on at `now`, if one is ready: a waiting key
    /// whose time has come, the earliest such, and of several due at the same
    /// time the one that stands first. The key is with a worker from then on,
    /// until `ack`. Returns `None`, and changes nothing, where no key is ready.
    pub fn dequeue(&mut self, now: u64) -> (r: Option<ObjectKey>)
        requires
            old(self).wf(),
        ensures
            final(self).wf(),
            final(self)@ == dequeued(old(self)@, now),
            match r {
                Some(key) => served(old(self)@, now) == Some(key@),
                None => served(old(self)@, now) is None,
            },
    {
        let n = self.entries.len();
        let mut best: Option<usize> = None;
        let mut best_due: u64 = 0;
        let mut i: usize = 0;
        while i < n
            invariant
                i <= n,
                n == self.entries.len(),
                self@ == old(self)@,
                match best {
                    Some(b) => {
                        &&& b < i
                        &&& ready(self@[b as int], now)
                        &&& best_due == due(self@[b as int])
                        &&& forall|j: int|
                            0 <= j < i && ready(#[trigger] self@[j], now) ==> best_due < due(
                                self@[j],
                            ) || (best_due == due(self@[j]) && b <= j)
                    },
                    None => forall|j: int| 0 <= j < i ==> !ready(#[trigger] self@[j], now),
                },
            decreases n - i,
        {
            match self.entries[i].phase {
                Phase::Pending { not_before } => {
                    if not_before <= now {
                        let better = match best {
                            Some(_) => not_before < best_due,
                            None => true,
                        };
                        if better {
                            best = Some(i);
                            best_due = not_before;
                        }
                    }
                },
                Phase::InFlight { .. } => {},
            }
            i += 1;
        }
        match best {
            Some(b) => {
                proof {
                    assert(is_choice(self@, now, b as int));
                    lemma_choice_unique(self@, now, b as int);
                }
                let key = self.entries[b].key.clone();
                let handed = key.clone();
                self.entries[b] = Entry { key, phase: Phase::InFlight { requeue: None } };
                assert(self@ =~= dequeued(old(self)@, now));
                Some(handed)
            },
            None => {
                proof {
                    lemma_no_choice(self@, now);
                }
                None
            },
        }
    }

    /// Takes the report of the worker on `key`. Where requests for the key
    /// arrived while it was with the worker, the key waits again, for the
    /// earliest time asked; else the queue forgets it. Returns whether the key
    /// was with a worker; where it was not, nothing changes.
    pub fn ack(&mut self, key: &ObjectKey) -> (was_in_flight: bool)
        requires
            old(self).wf(),
        ensures
            final(self).wf(),
            final(self)@ == acked(old(self)@, key@),
            was_in_flight == in_flight(old(self)@, key@),
    {
        match self.find(key) {
            Some(i) => {
                match self.entries[i].phase {
                    Phase::InFlight { requeue: Some(t) } => {
                        self.entries[i] = Entry {
                            key: key.clone(),
                            phase: Phase::Pending { not_before: t },
                        };
                        assert(self@ =~= acked(old(self)@, key@));
                        true
                    },
                    Phase::InFlight { requeue: None } => {
                        let _ = self.entries.remove(i);
                        assert(self@ =~= acked(old(self)@, key@));
                        true
                    },
                    Phase::Pending { .. } => false,
                }
            },
            None => false,
        }
    }

    /// The time the earliest waiting key waits for: the moment until which a
    /// caller with nothing to do may sleep. `None` where no key waits.
    pub fn next_due(&self) -> (r: Option<u64>)
        ensures
            match r {
                Some(t) => is_next_due(self@, t),
                None => forall|j: int| 0 <= j < self@.len() ==> (#[trigger] self@[j]).phase is InFlight,
            },
    {
        let n = self.entries.len();
        let mut best: Option<u64> = None;
        let mut i: usize = 0;
        while i < n
            invariant
                i <= n,
                n == self.entries.len(),
                match best {
                    Some(t) => {
                        &&& exists|j: int|
                            0 <= j < i && (#[trigger] self@[j]).phase == (Phase::Pending {
                                not_before: t,
                            })
                        &&& forall|j: int|
                            0 <= j < i ==> ((#[trigger] self@[j]).phase matches Phase::Pending {
                                not_before,
                            } ==> t <= not_before)
                    },
                    None => forall|j: int| 0 <= j < i ==> (#[trigger] self@[j]).phase is InFlight,
                },
            decreases n - i,
        {
            match self.entries[i].phase {
                Phase::Pending { not_before } => {
                    let sooner = match best {
                        Some(t) => not_before < t,
                        None => true,
                    };
                    if sooner {
                        best = Some(not_before);
                    }
                    assert(self@[i as int].phase == (Phase::Pending { not_before }));
                },
                Phase::InFlight { .. } => {},
            }
            i += 1;
        }
        best
    }

    /// Number of keys that are with a worker.
    pub fn in_flight_count(&self) -> (n: usize)
        ensures
            n == busy(self@),
    {
        let len = self.entries.len();
        let mut count: usize = 0;
        let mut i: usize = 0;
        while i < len
            invariant
                i <= len,
                len == self.entries.len(),
                count == busy(self@.take(i as int)),
                count <= i,
            decreases len - i,
        {
            proof {
                assert(self@.take(i + 1).drop_last() =~= self@.take(i as int));
            }
            match self.entries[i].phase {
                Phase::InFlight { .. } => {
                    count += 1;
                },
                Phase::Pending { .. } => {},
            }
            i += 1;
        }
        assert(self@.take(len as int) =~= self@);
        count
    }
}

} // verus!
