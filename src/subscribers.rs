//! The subscriber registry: the ids of the consumers that receive status
//! broadcasts, and every id this registry has ever handed out.
use vstd::prelude::*;
use vstd::set_lib::{set_int_range, lemma_int_range, lemma_len_subset};

verus! {

/// Every id up to `k` has been handed out.
pub open spec fn all_issued_upto(issued: Seq<usize>, k: int) -> bool {
    forall|m: usize| m < k ==> #[trigger] issued.contains(m)
}

/// `n` is the least id that has not been handed out.
pub open spec fn least_unissued(issued: Seq<usize>, n: usize) -> bool {
    !issued.contains(n) && all_issued_upto(issued, n as int)
}

/// The id a registration hands out when `candidate` was drawn: the candidate
/// itself unless it was handed out before, else the least id never handed out.
pub open spec fn fresh_id(issued: Seq<usize>, candidate: usize) -> usize {
    if !issued.contains(candidate) {
        candidate
    } else {
        choose|n: usize| least_unissued(issued, n)
    }
}

/// The registered ids once `id` is unregistered.
pub open spec fn without_id(ids: Seq<usize>, id: usize) -> Seq<usize> {
    if ids.contains(id) {
        ids.remove(choose|i: int| 0 <= i < ids.len() && ids[i] == id)
    } else {
        ids
    }
}

/// Registered ids are distinct, each of them was handed out, and the ids
/// handed out fit in memory.
pub open spec fn registry_wf(ids: Seq<usize>, issued: Seq<usize>) -> bool {
    &&& ids.no_duplicates()
    &&& issued.len() <= usize::MAX
    &&& forall|i: int| 0 <= i < ids.len() ==> issued.contains(ids[i])
}

/// A finite list cannot hold every id from zero to its own length.
proof fn lemma_issued_bound(issued: Seq<usize>, k: int)
    requires
        0 <= k <= usize::MAX as int + 1,
        all_issued_upto(issued, k),
    ensures
        k <= issued.len(),
{
    let a = set_int_range(0, k);
    let m = issued.map_values(|x: usize| x as int);
    let b = m.to_set();
    lemma_int_range(0, k);
    m.lemma_cardinality_of_set();
    assert(a.subset_of(b)) by {
        assert forall|x: int| a.contains(x) implies b.contains(x) by {
            assert(issued.contains(x as usize));
            let i = choose|i: int| 0 <= i < issued.len() && issued[i] == x as usize;
            assert(m[i] == issued[i] as int);
        }
    }
    lemma_len_subset(a, b);
}

proof fn lemma_least_unique(issued: Seq<usize>, n: usize)
    requires
        least_unissued(issued, n),
    ensures
        (choose|c: usize| least_unissued(issued, c)) == n,
{
    let c = choose|c: usize| least_unissued(issued, c);
    assert(least_unissued(issued, c));
    if c < n {
        assert(issued.contains(c as usize));
    }
    if n < c {
        assert(issued.contains(n as usize));
    }
}

/// Some id is never handed out: the least one above `k` among them.
proof fn lemma_some_unissued(issued: Seq<usize>, k: usize)
    requires
        issued.len() <= usize::MAX,
        k <= issued.len(),
        all_issued_upto(issued, k as int),
    ensures
        exists|n: usize| least_unissued(issued, n),
    decreases issued.len() - k,
{
    if !issued.contains(k) {
        assert(least_unissued(issued, k));
    } else {
        assert(all_issued_upto(issued, k + 1));
        lemma_issued_bound(issued, k + 1);
        lemma_some_unissued(issued, (k + 1) as usize);
    }
}

/// An id that was registered is never handed out again: after unregistering
/// it, the next registration yields an id distinct from it, and from every id
/// still registered.
pub proof fn lemma_reregister_fresh(
    ids: Seq<usize>,
    issued: Seq<usize>,
    id: usize,
    candidate: usize,
)
    requires
        registry_wf(ids, issued),
        ids.contains(id),
    ensures
        fresh_id(issued, candidate) != id,
        !without_id(ids, id).contains(fresh_id(issued, candidate)),
{
    lemma_some_unissued(issued, 0);
    let r = fresh_id(issued, candidate);
    assert(!issued.contains(r));
    let i = choose|i: int| 0 <= i < ids.len() && ids[i] == id;
    assert(issued.contains(ids[i]));
    let rest = without_id(ids, id);
    if rest.contains(r) {
        let j = choose|j: int| 0 <= j < rest.len() && rest[j] == r;
        if j < i {
            assert(rest[j] == ids[j]);
            assert(issued.contains(ids[j]));
        } else {
            assert(rest[j] == ids[j + 1]);
            assert(issued.contains(ids[j + 1]));
        }
    }
}

/// The ids that receive status broadcasts, in registration order.
pub struct SubscriberRegistry {
    ids: Vec<usize>,
    issued: Vec<usize>,
}

impl SubscriberRegistry {
    /// The registered ids, in registration order.
    pub closed spec fn ids(&self) -> Seq<usize> {
        self.ids@
    }

    /// Every id this registry has handed out, in order.
    pub closed spec fn issued(&self) -> Seq<usize> {
        self.issued@
    }

    pub open spec fn wf(&self) -> bool {
        registry_wf(self.ids(), self.issued())
    }

    pub fn new() -> (r: SubscriberRegistry)
        ensures
            r.wf(),
            r.ids() == Seq::<usize>::empty(),
            r.issued() == Seq::<usize>::empty(),
    {
        SubscriberRegistry { ids: Vec::new(), issued: Vec::new() }
    }

    /// The registered ids, in registration order.
    pub fn registered(&self) -> (r: Vec<usize>)
        ensures
            r@ == self.ids(),
    {
        self.ids.clone()
    }

    fn was_issued(&self, id: usize) -> (r: bool)
        ensures
            r == self.issued().contains(id),
    {
        let mut i: usize = 0;
        while i < self.issued.len()
            invariant
                i <= self.issued@.len(),
                forall|j: int| 0 <= j < i ==> self.issued@[j] != id,
            decreases self.issued@.len() - i,
        {
            if self.issued[i] == id {
                return true;
            }
            i = i + 1;
        }
        false
    }

    /// Registers a subscriber under an id drawn as `candidate` and returns the
    /// id handed out: `candidate` unless it was handed out before, else the
    /// least id never handed out.
    pub fn register(&mut self, candidate: usize) -> (r: usize)
        requires
            old(self).wf(),
        ensures
            final(self).wf(),
            r == fresh_id(old(self).issued(), candidate),
            !old(self).issued().contains(r),
            final(self).ids() == old(self).ids().push(r),
            final(self).issued() == old(self).issued().push(r),
    {
        let mut id = candidate;
        if self.was_issued(candidate) {
            let total = self.issued.len();
            let mut k: usize = 0;
            while self.was_issued(k)
                invariant
                    total == self.issued@.len(),
                    all_issued_upto(self.issued(), k as int),
                    k <= self.issued().len(),
                decreases self.issued().len() - k,
            {
                proof {
                    assert(all_issued_upto(self.issued(), k + 1));
                    lemma_issued_bound(self.issued(), k + 1);
                }
                k = k + 1;
            }
            proof {
                lemma_least_unique(self.issued(), k);
            }
            id = k;
        }
        let ghost before_ids = self.ids@;
        let ghost before_issued = self.issued@;
        self.ids.push(id);
        self.issued.push(id);
        let _ = self.issued.len();
        proof {
            assert forall|i: int, j: int|
                0 <= i < j < self.ids@.len() implies self.ids@[i] != self.ids@[j] by {
                if j == before_ids.len() {
                    assert(before_issued.contains(before_ids[i]));
                }
            }
            assert forall|i: int| 0 <= i < self.ids@.len() implies self.issued@.contains(
                self.ids@[i],
            ) by {
                if i < before_ids.len() {
                    let w = choose|w: int|
                        0 <= w < before_issued.len() && before_issued[w] == before_ids[i];
                    assert(self.issued@[w] == self.ids@[i]);
                } else {
                    assert(self.issued@[before_issued.len() as int] == id);
                }
            }
        }
        id
    }

    /// Removes `id` from the registered ids; an id that is not registered is ignored.
    pub fn unregister(&mut self, id: usize)
        requires
            old(self).wf(),
        ensures
            final(self).wf(),
            final(self).ids() == without_id(old(self).ids(), id),
            !final(self).ids().contains(id),
            final(self).issued() == old(self).issued(),
    {
        let mut i: usize = 0;
        while i < self.ids.len()
            invariant
                self.ids@ == old(self).ids@,
                self.issued@ == old(self).issued@,
                registry_wf(self.ids@, self.issued@),
                i <= self.ids@.len(),
                forall|j: int| 0 <= j < i ==> self.ids@[j] != id,
            decreases self.ids@.len() - i,
        {
            if self.ids[i] == id {
                let ghost before = self.ids@;
                proof {
                    let c = choose|c: int| 0 <= c < before.len() && before[c] == id;
                    assert(c == i);
                }
                self.ids.remove(i);
                proof {
                    assert forall|a: int, b: int|
                        0 <= a < b < self.ids@.len() implies self.ids@[a] != self.ids@[b] by {
                        let a2 = if a < i { a } else { a + 1 };
                        let b2 = if b < i { b } else { b + 1 };
                        assert(self.ids@[a] == before[a2]);
                        assert(self.ids@[b] == before[b2]);
                    }
                    assert forall|a: int| 0 <= a < self.ids@.len() implies self.issued@.contains(
                        self.ids@[a],
                    ) by {
                        let a2 = if a < i { a } else { a + 1 };
                        assert(self.ids@[a] == before[a2]);
                    }
                    assert forall|a: int| 0 <= a < self.ids@.len() implies self.ids@[a] != id by {
                        let a2 = if a < i { a } else { a + 1 };
                        assert(self.ids@[a] == before[a2]);
                        assert(before[i as int] == id);
                    }
                }
                return;
            }
            i = i + 1;
        }
        proof {
            assert(!self.ids@.contains(id));
        }
    }
}

} // verus!
