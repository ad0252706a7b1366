//! What holds of the work queue over whole runs of operations.
//!
//! The queue's operations are stated over `Seq<Item>`; read key by key, that
//! sequence is a map from keys to phases. The first lemmas here say what each
//! operation does to the phase of every key; the laws at the end follow from
//! them by induction over a run.

use vstd::prelude::*;
use crate::key::KeyView;
use crate::queue::{
    acked, choice, dequeued, distinct_keys, due, earlier, enqueued, hastened, holds, in_flight,
    is_choice, is_ready, lemma_slot, phase_of, ready, served, slot, waits_for, Item, Phase,
};

verus! {

/// `k` has one entry and no second one.
pub open spec fn holds_once(q: Seq<Item>, k: KeyView) -> bool {
    exists|i: int|
        0 <= i < q.len() && (#[trigger] q[i]).key == k && forall|j: int|
            0 <= j < q.len() && (#[trigger] q[j]).key == k ==> j == i
}

/// In a queue without repeated keys, a key it holds has exactly one entry.
pub proof fn lemma_holds_once(q: Seq<Item>, k: KeyView)
    requires
        distinct_keys(q),
        holds(q, k),
    ensures
        holds_once(q, k),
{
    let i = slot(q, k);
    assert(0 <= i < q.len() && q[i].key == k);
    assert forall|j: int| 0 <= j < q.len() && (#[trigger] q[j]).key == k implies j == i by {
        if j < i {
            assert(q[j].key != q[i].key);
        } else if i < j {
            assert(q[i].key != q[j].key);
        }
    }
}

/// A request for `k` touches the entry of `k` alone: it hastens the phase
/// that `k` had, or makes `k` wait for `at` where the queue did not know it.
pub proof fn lemma_enqueued(q: Seq<Item>, k: KeyView, at: u64, other: KeyView)
    requires
        distinct_keys(q),
    ensures
        distinct_keys(enqueued(q, k, at)),
        phase_of(enqueued(q, k, at), k) == Some(
            match phase_of(q, k) {
                Some(p) => hastened(p, at),
                None => Phase::Pending { not_before: at },
            },
        ),
        other != k ==> phase_of(enqueued(q, k, at), other) == phase_of(q, other),
{
    let r = enqueued(q, k, at);
    if holds(q, k) {
        let i = slot(q, k);
        assert(0 <= i < q.len() && q[i].key == k);
        assert forall|a: int, b: int| 0 <= a < b < r.len() implies (#[trigger] r[a]).key != (
        #[trigger] r[b]).key by {
            assert(q[a].key != q[b].key);
        }
        lemma_slot(r, i);
        if other != k {
            lemma_unchanged_elsewhere(q, r, i, other);
        }
    } else {
        let n = q.len() as int;
        assert forall|a: int, b: int| 0 <= a < b < r.len() implies (#[trigger] r[a]).key != (
        #[trigger] r[b]).key by {
            if b < n {
                assert(q[a].key != q[b].key);
            } else {
                assert(q[a].key != k);
            }
        }
        lemma_slot(r, n);
        if other != k {
            if holds(q, other) {
                let j = slot(q, other);
                assert(0 <= j < q.len() && q[j].key == other);
                lemma_slot(q, j);
                assert(r[j] == q[j]);
                lemma_slot(r, j);
            } else {
                if holds(r, other) {
                    let j = slot(r, other);
                    assert(0 <= j < r.len() && r[j].key == other);
                    assert(j < n);
                    assert(q[j].key == other);
                }
            }
        }
    }
}

/// Where two queues of one length differ at most at position `i`, and keep
/// the key there, every other key has the same phase in both.
proof fn lemma_unchanged_elsewhere(q: Seq<Item>, r: Seq<Item>, i: int, other: KeyView)
    requires
        distinct_keys(q),
        distinct_keys(r),
        0 <= i < q.len(),
        r.len() == q.len(),
        r[i].key == q[i].key,
        forall|j: int| 0 <= j < q.len() && j != i ==> #[trigger] r[j] == q[j],
        other != q[i].key,
    ensures
        phase_of(r, other) == phase_of(q, other),
{
    if holds(q, other) {
        let j = slot(q, other);
        assert(0 <= j < q.len() && q[j].key == other);
        assert(r[j] == q[j]);
        lemma_slot(q, j);
        lemma_slot(r, j);
    } else {
        if holds(r, other) {
            let j = slot(r, other);
            assert(0 <= j < r.len() && r[j].key == other);
            assert(r[j] == q[j]);
            assert(q[j].key == other);
        }
    }
}

/// Handing out touches the served key alone, which was waiting with its time
/// come and is with a worker afterwards; where nothing is served nothing
/// changes.
pub proof fn lemma_dequeued(q: Seq<Item>, now: u64, other: KeyView)
    requires
        distinct_keys(q),
    ensures
        distinct_keys(dequeued(q, now)),
        match served(q, now) {
            Some(k) => {
                &&& is_ready(q, k, now)
                &&& is_ready(q, other, now) ==> waits_for(q, k) <= waits_for(q, other)
                &&& phase_of(dequeued(q, now), k) == Some(Phase::InFlight { requeue: None })
                &&& other != k ==> phase_of(dequeued(q, now), other) == phase_of(q, other)
            },
            None => {
                &&& dequeued(q, now) == q
                &&& !is_ready(q, other, now)
            },
        },
{
    let r = dequeued(q, now);
    if holds(q, other) {
        let j = slot(q, other);
        assert(0 <= j < q.len() && q[j].key == other);
        if ready(q[j], now) {
            lemma_choice_exists(q, now, q.len() as int);
        }
    }
    match choice(q, now) {
        Some(i) => {
            assert(is_choice(q, now, i));
            assert(ready(q[i], now));
            let k = q[i].key;
            assert forall|a: int, b: int| 0 <= a < b < r.len() implies (#[trigger] r[a]).key != (
            #[trigger] r[b]).key by {
                assert(q[a].key != q[b].key);
            }
            lemma_slot(q, i);
            lemma_slot(r, i);
            if other != k {
                lemma_unchanged_elsewhere(q, r, i, other);
            }
        },
        None => {},
    }
}

/// Among the first `n` entries, where one is ready, one is the choice.
proof fn lemma_choice_exists(q: Seq<Item>, now: u64, n: int) -> (best: int)
    requires
        0 <= n <= q.len(),
        exists|j: int| 0 <= j < n && ready(#[trigger] q[j], now),
    ensures
        0 <= best < n,
        ready(q[best], now),
        forall|j: int|
            0 <= j < n && ready(#[trigger] q[j], now) ==> due(q[best]) < due(q[j]) || (due(q[best])
                == due(q[j]) && best <= j),
        n == q.len() ==> is_choice(q, now, best),
    decreases n,
{
    if exists|j: int| 0 <= j < n - 1 && ready(#[trigger] q[j], now) {
        let before = lemma_choice_exists(q, now, n - 1);
        if ready(q[n - 1], now) && due(q[n - 1]) < due(q[before]) {
            n - 1
        } else {
            before
        }
    } else {
        let j = choose|j: int| 0 <= j < n && ready(#[trigger] q[j], now);
        assert(j == n - 1);
        n - 1
    }
}

/// A waiting key whose time has come does not wait in vain: some key is
/// handed out, and it is this key where no other key is ready.
pub proof fn lemma_ready_is_served(q: Seq<Item>, now: u64, k: KeyView)
    requires
        distinct_keys(q),
        is_ready(q, k, now),
    ensures
        served(q, now) is Some,
        (forall|other: KeyView| other != k ==> !#[trigger] is_ready(q, other, now)) ==> served(
            q,
            now,
        ) == Some(k),
{
    lemma_dequeued(q, now, k);
    if served(q, now) is Some {
        lemma_dequeued(q, now, served(q, now)->0);
    }
}

/// A worker's report touches the reported key alone: a key that was with a
/// worker waits for the earliest time asked meanwhile, or is forgotten where
/// none was asked; a report on any other key changes nothing.
pub proof fn lemma_acked(q: Seq<Item>, k: KeyView, other: KeyView)
    requires
        distinct_keys(q),
    ensures
        distinct_keys(acked(q, k)),
        phase_of(acked(q, k), k) == match phase_of(q, k) {
            Some(Phase::InFlight { requeue: Some(t) }) => Some(Phase::Pending { not_before: t }),
            Some(Phase::InFlight { requeue: None }) => None,
            p => p,
        },
        other != k ==> phase_of(acked(q, k), other) == phase_of(q, other),
{
    let r = acked(q, k);
    match phase_of(q, k) {
        Some(Phase::InFlight { requeue: Some(t) }) => {
            let i = slot(q, k);
            assert(0 <= i < q.len() && q[i].key == k);
            assert forall|a: int, b: int| 0 <= a < b < r.len() implies (#[trigger] r[a]).key != (
            #[trigger] r[b]).key by {
                assert(q[a].key != q[b].key);
            }
            lemma_slot(r, i);
            if other != k {
                lemma_unchanged_elsewhere(q, r, i, other);
            }
        },
        Some(Phase::InFlight { requeue: None }) => {
            let i = slot(q, k);
            assert(0 <= i < q.len() && q[i].key == k);
            lemma_removed(q, i, k);
            if other != k {
                lemma_removed(q, i, other);
            }
        },
        _ => {},
    }
}

/// Taking the entry at `i` out forgets its key and keeps the phase of every
/// other key.
proof fn lemma_removed(q: Seq<Item>, i: int, other: KeyView)
    requires
        distinct_keys(q),
        0 <= i < q.len(),
    ensures
        distinct_keys(q.remove(i)),
        phase_of(q.remove(i), other) == if other == q[i].key {
            None
        } else {
            phase_of(q, other)
        },
{
    let r = q.remove(i);
    assert forall|a: int| 0 <= a < r.len() implies #[trigger] r[a] == q[if a < i {
        a
    } else {
        a + 1
    }] by {}
    assert forall|a: int, b: int| 0 <= a < b < r.len() implies (#[trigger] r[a]).key != (
    #[trigger] r[b]).key by {
        let a2 = if a < i {
            a
        } else {
            a + 1
        };
        let b2 = if b < i {
            b
        } else {
            b + 1
        };
        assert(r[a] == q[a2]);
        assert(r[b] == q[b2]);
        assert(q[a2].key != q[b2].key);
    }
    if holds(r, other) {
        let j = slot(r, other);
        assert(0 <= j < r.len() && r[j].key == other);
        let j2 = if j < i {
            j
        } else {
            j + 1
        };
        assert(r[j] == q[j2]);
        if j2 < i {
            assert(q[j2].key != q[i].key);
        } else {
            assert(q[i].key != q[j2].key);
        }
        lemma_slot(q, j2);
        lemma_slot(r, j);
    } else {
        if other != q[i].key && holds(q, other) {
            let j = slot(q, other);
            assert(0 <= j < q.len() && q[j].key == other);
            let j1 = if j < i {
                j
            } else {
                j - 1
            };
            assert(r[j1] == q[j]);
            assert(r[j1].key == other);
        }
    }
}

/// One request of a run of enqueues: the key, and the time asked for it.
pub struct Request {
    pub key: KeyView,
    pub at: u64,
}

/// The queue after the requests `reqs`, made in order.
pub open spec fn enqueued_all(q: Seq<Item>, reqs: Seq<Request>) -> Seq<Item>
    decreases reqs.len(),
{
    if reqs.len() == 0 {
        q
    } else {
        enqueued(enqueued_all(q, reqs.drop_last()), reqs.last().key, reqs.last().at)
    }
}

/// The earliest of `t0` and the times that `reqs` ask for `k`.
pub open spec fn earliest_asked(t0: u64, reqs: Seq<Request>, k: KeyView) -> u64
    decreases reqs.len(),
{
    if reqs.len() == 0 {
        t0
    } else if reqs.last().key == k {
        earlier(earliest_asked(t0, reqs.drop_last(), k), reqs.last().at)
    } else {
        earliest_asked(t0, reqs.drop_last(), k)
    }
}

/// Requests coalesce. Let `k` wait for `t0`. After any run of requests, for
/// `k` and for other keys in any order, the queue still holds exactly one
/// entry for `k`, and `k` waits for the earliest of `t0` and the times the
/// run asked for it.
pub proof fn lemma_requests_coalesce(q: Seq<Item>, reqs: Seq<Request>, k: KeyView, t0: u64)
    requires
        distinct_keys(q),
        phase_of(q, k) == Some(Phase::Pending { not_before: t0 }),
    ensures
        distinct_keys(enqueued_all(q, reqs)),
        holds_once(enqueued_all(q, reqs), k),
        phase_of(enqueued_all(q, reqs), k) == Some(
            Phase::Pending { not_before: earliest_asked(t0, reqs, k) },
        ),
    decreases reqs.len(),
{
    if reqs.len() == 0 {
        lemma_holds_once(q, k);
    } else {
        let before = enqueued_all(q, reqs.drop_last());
        lemma_requests_coalesce(q, reqs.drop_last(), k, t0);
        lemma_enqueued(before, reqs.last().key, reqs.last().at, k);
        lemma_holds_once(enqueued_all(q, reqs), k);
    }
}

/// The same for a key that is with a worker: the requests of a run are kept
/// as one, for the earliest time asked, and the key stays with its worker.
pub proof fn lemma_requests_coalesce_in_flight(
    q: Seq<Item>,
    reqs: Seq<Request>,
    k: KeyView,
    first: Request,
)
    requires
        distinct_keys(q),
        phase_of(q, k) == Some(Phase::InFlight { requeue: None }),
        first.key == k,
    ensures
        holds_once(enqueued_all(q, seq![first] + reqs), k),
        phase_of(enqueued_all(q, seq![first] + reqs), k) == Some(
            Phase::InFlight { requeue: Some(earliest_asked(first.at, reqs, k)) },
        ),
        distinct_keys(enqueued_all(q, seq![first] + reqs)),
    decreases reqs.len(),
{
    let all = seq![first] + reqs;
    if reqs.len() == 0 {
        assert(all.drop_last() =~= Seq::<Request>::empty());
        assert(all.last() == first);
        assert(enqueued_all(q, all.drop_last()) == q);
        lemma_enqueued(q, k, first.at, k);
    } else {
        assert(all.drop_last() =~= seq![first] + reqs.drop_last());
        assert(all.last() == reqs.last());
        lemma_requests_coalesce_in_flight(q, reqs.drop_last(), k, first);
        lemma_enqueued(enqueued_all(q, all.drop_last()), reqs.last().key, reqs.last().at, k);
    }
    lemma_holds_once(enqueued_all(q, all), k);
}

/// One operation on the queue.
pub enum Op {
    Enqueue { key: KeyView, at: u64 },
    Dequeue { now: u64 },
    Ack { key: KeyView },
}

/// The queue after `op`.
pub open spec fn step(q: Seq<Item>, op: Op) -> Seq<Item> {
    match op {
        Op::Enqueue { key, at } => enqueued(q, key, at),
        Op::Dequeue { now } => dequeued(q, now),
        Op::Ack { key } => acked(q, key),
    }
}

/// The key that `op` hands to a worker, if it hands out any.
pub open spec fn handed(q: Seq<Item>, op: Op) -> Option<KeyView> {
    match op {
        Op::Dequeue { now } => served(q, now),
        _ => None,
    }
}

/// The queue after the operations `ops`, made in order.
pub open spec fn run(q: Seq<Item>, ops: Seq<Op>) -> Seq<Item>
    decreases ops.len(),
{
    if ops.len() == 0 {
        q
    } else {
        step(run(q, ops.drop_last()), ops.last())
    }
}

/// Every operation keeps the queue free of repeated keys.
pub proof fn lemma_run_distinct(q: Seq<Item>, ops: Seq<Op>)
    requires
        distinct_keys(q),
    ensures
        distinct_keys(run(q, ops)),
    decreases ops.len(),
{
    if ops.len() > 0 {
        lemma_run_distinct(q, ops.drop_last());
        let before = run(q, ops.drop_last());
        match ops.last() {
            Op::Enqueue { key, at } => lemma_enqueued(before, key, at, key),
            Op::Dequeue { now } => lemma_dequeued(before, now, before[0].key),
            Op::Ack { key } => lemma_acked(before, key, key),
        }
    }
}

/// A key is handed out only while no worker has it.
pub proof fn lemma_served_was_waiting(q: Seq<Item>, now: u64, k: KeyView)
    requires
        distinct_keys(q),
        served(q, now) == Some(k),
    ensures
        !in_flight(q, k),
        in_flight(dequeued(q, now), k),
{
    lemma_dequeued(q, now, k);
}

/// One worker per key. Let `k` be with a worker. Whatever the others do,
/// enqueues and dequeues at any time and reports on other keys, as long as
/// the report on `k` is outstanding no dequeue hands `k` out again, and `k`
/// stays with its worker.
pub proof fn lemma_one_worker_per_key(q: Seq<Item>, ops: Seq<Op>, k: KeyView)
    requires
        distinct_keys(q),
        in_flight(q, k),
        forall|i: int| 0 <= i < ops.len() ==> #[trigger] ops[i] != (Op::Ack { key: k }),
    ensures
        in_flight(run(q, ops), k),
        forall|i: int|
            0 <= i < ops.len() ==> handed(run(q, #[trigger] ops.take(i)), ops[i]) != Some(k),
    decreases ops.len(),
{
    if ops.len() > 0 {
        let init = ops.drop_last();
        let last = ops.last();
        let before = run(q, init);
        lemma_one_worker_per_key(q, init, k);
        lemma_run_distinct(q, init);
        match last {
            Op::Enqueue { key, at } => {
                lemma_enqueued(before, key, at, k);
            },
            Op::Dequeue { now } => {
                lemma_dequeued(before, now, k);
            },
            Op::Ack { key } => {
                assert(ops[ops.len() - 1] != (Op::Ack { key: k }));
                lemma_acked(before, key, k);
            },
        }
        assert forall|i: int| 0 <= i < ops.len() implies handed(
            run(q, #[trigger] ops.take(i)),
            ops[i],
        ) != Some(k) by {
            if i < ops.len() - 1 {
                assert(ops.take(i) =~= init.take(i));
                assert(ops[i] == init[i]);
            } else {
                assert(ops.take(i) =~= init);
                match last {
                    Op::Dequeue { now } => {
                        lemma_dequeued(before, now, k);
                    },
                    _ => {},
                }
            }
        }
    }
}

/// A waiting key waits. Let `k` wait for `at`. Over any run in which nobody
/// asks for `k` again and every dequeue comes before `at`, `k` is handed out
/// to nobody and still waits for `at` at the end.
pub proof fn lemma_waits_until_due(q: Seq<Item>, ops: Seq<Op>, k: KeyView, at: u64)
    requires
        distinct_keys(q),
        phase_of(q, k) == Some(Phase::Pending { not_before: at }),
        forall|i: int|
            0 <= i < ops.len() ==> match #[trigger] ops[i] {
                Op::Enqueue { key, .. } => key != k,
                Op::Dequeue { now } => now < at,
                Op::Ack { .. } => true,
            },
    ensures
        phase_of(run(q, ops), k) == Some(Phase::Pending { not_before: at }),
        forall|i: int|
            0 <= i < ops.len() ==> handed(run(q, #[trigger] ops.take(i)), ops[i]) != Some(k),
    decreases ops.len(),
{
    if ops.len() > 0 {
        let init = ops.drop_last();
        let last = ops.last();
        let before = run(q, init);
        assert forall|i: int| 0 <= i < init.len() implies match #[trigger] init[i] {
            Op::Enqueue { key, .. } => key != k,
            Op::Dequeue { now } => now < at,
            Op::Ack { .. } => true,
        } by {
            assert(init[i] == ops[i]);
        }
        lemma_waits_until_due(q, init, k, at);
        lemma_run_distinct(q, init);
        assert(last == ops[ops.len() - 1]);
        match last {
            Op::Enqueue { key, at: asked } => {
                lemma_enqueued(before, key, asked, k);
            },
            Op::Dequeue { now } => {
                lemma_dequeued(before, now, k);
            },
            Op::Ack { key } => {
                lemma_acked(before, key, k);
            },
        }
        assert forall|i: int| 0 <= i < ops.len() implies handed(
            run(q, #[trigger] ops.take(i)),
            ops[i],
        ) != Some(k) by {
            if i < ops.len() - 1 {
                assert(ops.take(i) =~= init.take(i));
                assert(ops[i] == init[i]);
            } else {
                assert(ops.take(i) =~= init);
            }
        }
    }
}

/// Between being handed out and being reported on, a key is handed out to
/// nobody else: after a dequeue that serves `k`, no run without a report on
/// `k` contains a dequeue that serves `k` again.
pub proof fn lemma_no_second_dequeue(q: Seq<Item>, now: u64, ops: Seq<Op>, k: KeyView)
    requires
        distinct_keys(q),
        served(q, now) == Some(k),
        forall|i: int| 0 <= i < ops.len() ==> #[trigger] ops[i] != (Op::Ack { key: k }),
    ensures
        forall|i: int|
            0 <= i < ops.len() ==> handed(run(dequeued(q, now), #[trigger] ops.take(i)), ops[i])
                != Some(k),
{
    lemma_dequeued(q, now, k);
    lemma_one_worker_per_key(dequeued(q, now), ops, k);
}

} // verus!
