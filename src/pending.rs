//! The pending table: one-shot reply slots, kept in submission order and
//! served oldest first within each reply key.
use vstd::prelude::*;
use crate::protocol::ReplyKey;

verus! {

/// The tickets waiting under `k`, oldest first.
pub open spec fn waiting(s: Seq<(ReplyKey, u64)>, k: ReplyKey) -> Seq<u64>
    decreases s.len(),
{
    if s.len() == 0 {
        Seq::empty()
    } else {
        (if s[0].0 == k {
            seq![s[0].1]
        } else {
            Seq::<u64>::empty()
        }) + waiting(s.drop_first(), k)
    }
}

/// `i` is the oldest slot under `k`.
pub open spec fn is_oldest(s: Seq<(ReplyKey, u64)>, k: ReplyKey, i: int) -> bool {
    &&& 0 <= i < s.len()
    &&& s[i].0 == k
    &&& forall|j: int| 0 <= j < i ==> s[j].0 != k
}

/// The table after enqueuing `t` under `k`.
pub open spec fn enqueue_spec(s: Seq<(ReplyKey, u64)>, k: ReplyKey, t: u64) -> Seq<(ReplyKey, u64)> {
    s.push((k, t))
}

/// Firing `k`: the oldest slot under `k` leaves the table and its ticket is
/// handed out; with no slot under `k` nothing changes.
pub open spec fn fire_spec(s: Seq<(ReplyKey, u64)>, k: ReplyKey) -> (Seq<(ReplyKey, u64)>, Option<u64>) {
    if exists|i: int| is_oldest(s, k, i) {
        let i = choose|i: int| is_oldest(s, k, i);
        (s.remove(i), Some(s[i].1))
    } else {
        (s, None)
    }
}

/// The tickets handed out by `n` successive fires of `k`, in order.
pub open spec fn fires(s: Seq<(ReplyKey, u64)>, k: ReplyKey, n: nat) -> Seq<u64>
    decreases n,
{
    if n == 0 {
        Seq::empty()
    } else {
        let (rest, t) = fire_spec(s, k);
        match t {
            Some(t) => seq![t] + fires(rest, k, (n - 1) as nat),
            None => Seq::empty(),
        }
    }
}

/// The table after enqueuing each of `ts` under `k`, in order.
pub open spec fn enqueue_all(s: Seq<(ReplyKey, u64)>, k: ReplyKey, ts: Seq<u64>) -> Seq<(ReplyKey, u64)>
    decreases ts.len(),
{
    if ts.len() == 0 {
        s
    } else {
        enqueue_all(enqueue_spec(s, k, ts[0]), k, ts.drop_first())
    }
}

/// Enqueuing appends to the queue of its own key and leaves every other queue as it was.
pub proof fn lemma_enqueue_appends(s: Seq<(ReplyKey, u64)>, k: ReplyKey, t: u64, k2: ReplyKey)
    ensures
        waiting(enqueue_spec(s, k, t), k2) == (if k2 == k {
            waiting(s, k2).push(t)
        } else {
            waiting(s, k2)
        }),
    decreases s.len(),
{
    let p = s.push((k, t));
    if s.len() == 0 {
        assert(p.drop_first() =~= Seq::<(ReplyKey, u64)>::empty());
        assert(waiting(p.drop_first(), k2) == Seq::<u64>::empty());
        assert(waiting(p, k2) =~= (if k2 == k { seq![t] } else { Seq::<u64>::empty() }));
    } else {
        assert(p.drop_first() =~= s.drop_first().push((k, t)));
        lemma_enqueue_appends(s.drop_first(), k, t, k2);
        let head = if s[0].0 == k2 {
            seq![s[0].1]
        } else {
            Seq::<u64>::empty()
        };
        if k2 == k {
            assert(waiting(p, k2) =~= waiting(s, k2).push(t));
        } else {
            assert(waiting(p, k2) =~= waiting(s, k2));
        }
    }
}

proof fn lemma_none_waiting(s: Seq<(ReplyKey, u64)>, k: ReplyKey)
    requires
        forall|j: int| 0 <= j < s.len() ==> s[j].0 != k,
    ensures
        waiting(s, k) == Seq::<u64>::empty(),
    decreases s.len(),
{
    if s.len() > 0 {
        lemma_none_waiting(s.drop_first(), k);
        assert(waiting(s, k) =~= Seq::<u64>::empty());
    }
}

/// Removing the oldest slot under `k` drops the head of `k`'s queue and nothing else.
proof fn lemma_remove_oldest(s: Seq<(ReplyKey, u64)>, k: ReplyKey, i: int, k2: ReplyKey)
    requires
        is_oldest(s, k, i),
    ensures
        waiting(s, k).len() > 0,
        waiting(s, k)[0] == s[i].1,
        waiting(s.remove(i), k2) == (if k2 == k {
            waiting(s, k2).drop_first()
        } else {
            waiting(s, k2)
        }),
    decreases s.len(),
{
    let r = s.remove(i);
    if i == 0 {
        assert(r =~= s.drop_first());
        assert(waiting(s, k) =~= seq![s[0].1] + waiting(s.drop_first(), k));
        if k2 == k {
            assert(waiting(r, k2) =~= waiting(s, k2).drop_first());
        } else {
            assert(waiting(s, k2) =~= waiting(s.drop_first(), k2));
        }
    } else {
        let t = s.drop_first();
        assert(is_oldest(t, k, i - 1));
        lemma_remove_oldest(t, k, i - 1, k2);
        assert(r.drop_first() =~= t.remove(i - 1));
        assert(r[0] == s[0]);
        assert(waiting(s, k) =~= waiting(t, k));
        if k2 == k {
            assert(waiting(r, k2) =~= waiting(r.drop_first(), k2));
            assert(waiting(r, k2) =~= waiting(s, k2).drop_first());
        } else {
            assert(waiting(r, k2) =~= waiting(s, k2));
        }
    }
}

/// A fire hands out the head of its key's queue, drops exactly that ticket, and
/// leaves every other key's queue untouched.
pub proof fn lemma_fire_serves_oldest(s: Seq<(ReplyKey, u64)>, k: ReplyKey, k2: ReplyKey)
    ensures
        fire_spec(s, k).1 == (if waiting(s, k).len() > 0 {
            Some(waiting(s, k)[0])
        } else {
            None::<u64>
        }),
        waiting(fire_spec(s, k).0, k2) == (if k2 == k && waiting(s, k).len() > 0 {
            waiting(s, k2).drop_first()
        } else {
            waiting(s, k2)
        }),
{
    if exists|i: int| is_oldest(s, k, i) {
        let i = choose|i: int| is_oldest(s, k, i);
        lemma_remove_oldest(s, k, i, k2);
        lemma_remove_oldest(s, k, i, k);
    } else {
        assert forall|j: int| 0 <= j < s.len() implies s[j].0 != k by {
            if s[j].0 == k {
                lemma_first_exists(s, k, j);
            }
        }
        lemma_none_waiting(s, k);
    }
}

proof fn lemma_first_exists(s: Seq<(ReplyKey, u64)>, k: ReplyKey, j: int)
    requires
        0 <= j < s.len(),
        s[j].0 == k,
    ensures
        exists|i: int| is_oldest(s, k, i),
    decreases j,
{
    if exists|i: int| 0 <= i < j && s[i].0 == k {
        let i = choose|i: int| 0 <= i < j && s[i].0 == k;
        lemma_first_exists(s, k, i);
    } else {
        assert(is_oldest(s, k, j));
    }
}

/// Successive fires of `k` hand out the tickets waiting under `k` in the order
/// in which they were enqueued.
pub proof fn lemma_fires_in_order(s: Seq<(ReplyKey, u64)>, k: ReplyKey, n: nat)
    requires
        n <= waiting(s, k).len(),
    ensures
        fires(s, k, n) == waiting(s, k).take(n as int),
    decreases n,
{
    if n > 0 {
        lemma_fire_serves_oldest(s, k, k);
        let rest = fire_spec(s, k).0;
        lemma_fires_in_order(rest, k, (n - 1) as nat);
        assert(fires(s, k, n) =~= waiting(s, k).take(n as int));
    } else {
        assert(fires(s, k, n) =~= waiting(s, k).take(0));
    }
}

/// Queries under one reply key are answered in the order in which they were
/// submitted: once the tickets `ts` are enqueued under `k` on a table with
/// nothing else waiting under `k`, the next `ts.len()` fires of `k` hand out
/// exactly `ts`, in order.
pub proof fn lemma_fifo_per_key(s: Seq<(ReplyKey, u64)>, k: ReplyKey, ts: Seq<u64>)
    requires
        waiting(s, k).len() == 0,
    ensures
        fires(enqueue_all(s, k, ts), k, ts.len()) == ts,
{
    lemma_enqueue_all(s, k, ts);
    lemma_fires_in_order(enqueue_all(s, k, ts), k, ts.len());
    assert(waiting(s, k) + ts =~= ts);
    assert(ts.take(ts.len() as int) =~= ts);
}

proof fn lemma_enqueue_all(s: Seq<(ReplyKey, u64)>, k: ReplyKey, ts: Seq<u64>)
    ensures
        waiting(enqueue_all(s, k, ts), k) == waiting(s, k) + ts,
    decreases ts.len(),
{
    if ts.len() == 0 {
        assert(waiting(s, k) + ts =~= waiting(s, k));
    } else {
        lemma_enqueue_appends(s, k, ts[0], k);
        lemma_enqueue_all(enqueue_spec(s, k, ts[0]), k, ts.drop_first());
        assert(waiting(s, k).push(ts[0]) + ts.drop_first() =~= waiting(s, k) + ts);
    }
}

/// The slots of queries that await a reply, in submission order.
pub struct PendingTable {
    slots: Vec<(ReplyKey, u64)>,
}

impl View for PendingTable {
    type V = Seq<(ReplyKey, u64)>;

    closed spec fn view(&self) -> Seq<(ReplyKey, u64)> {
        self.slots@
    }
}

impl PendingTable {
    pub fn new() -> (r: PendingTable)
        ensures
            r@ == Seq::<(ReplyKey, u64)>::empty(),
    {
        PendingTable { slots: Vec::new() }
    }

    /// The number of slots in the table.
    pub fn len(&self) -> (r: usize)
        ensures
            r == self@.len(),
    {
        self.slots.len()
    }

    /// Adds a slot for `ticket` behind every slot already waiting.
    pub fn enqueue(&mut self, key: ReplyKey, ticket: u64)
        ensures
            final(self)@ == enqueue_spec(old(self)@, key, ticket),
    {
        self.slots.push((key, ticket));
    }

    /// Takes out the oldest slot under `key`, if any, and returns its ticket.
    pub fn fire(&mut self, key: ReplyKey) -> (r: Option<u64>)
        ensures
            (final(self)@, r) == fire_spec(old(self)@, key),
    {
        let mut i: usize = 0;
        while i < self.slots.len()
            invariant
                self@ == old(self)@,
                i <= self@.len(),
                forall|j: int| 0 <= j < i ==> self@[j].0 != key,
            decreases self@.len() - i,
        {
            if self.slots[i].0 == key {
                let ghost s = self@;
                assert(is_oldest(s, key, i as int));
                proof {
                    let c = choose|c: int| is_oldest(s, key, c);
                    assert(c == i);
                }
                let slot = self.slots.remove(i);
                return Some(slot.1);
            }
            i = i + 1;
        }
        proof {
            assert(!exists|c: int| is_oldest(self@, key, c));
        }
        None
    }

    /// Drops every slot.
    pub fn clear(&mut self)
        ensures
            final(self)@ == Seq::<(ReplyKey, u64)>::empty(),
    {
        self.slots.clear();
    }
}

} // verus!
