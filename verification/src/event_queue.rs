//! The queue of pending events: a binary min-heap ordered by `(time, id)`.

use crate::directory::{purged, EventCancellationPolicy};
use crate::event::{not_later, EventHeader, EventId, Id};
use vstd::prelude::*;

verus! {

/// Index of the parent of heap slot `i`.
pub open spec fn parent(i: int) -> int {
    (i - 1) / 2
}

/// Every slot but the root is no earlier than its parent.
pub open spec fn heap_ordered(s: Seq<EventHeader>) -> bool {
    forall|j: int| 0 < j < s.len() ==> not_later(s[parent(j)], #[trigger] s[j])
}

/// No two slots hold the same event id.
pub open spec fn distinct_ids(s: Seq<EventHeader>) -> bool {
    forall|i: int, j: int| 0 <= i < j < s.len() ==> (#[trigger] s[i]).id != (#[trigger] s[j]).id
}

/// `e` is in `set`, and nothing in `set` is delivered before it.
pub open spec fn is_earliest(e: EventHeader, set: Set<EventHeader>) -> bool {
    &&& set.contains(e)
    &&& forall|x: EventHeader| #[trigger] set.contains(x) ==> not_later(e, x)
}

/// The slots other than `i` are no earlier than their parents, and the
/// children of `i` are no earlier than the parent of `i`.
spec fn ordered_except(s: Seq<EventHeader>, i: int) -> bool {
    &&& forall|j: int| 0 < j < s.len() && j != i ==> not_later(s[parent(j)], #[trigger] s[j])
    &&& forall|j: int|
        0 < j < s.len() && parent(j) == i && i > 0 ==> not_later(s[parent(i)], #[trigger] s[j])
}

/// The slots whose parent is not `i` are no earlier than their parents, and
/// the children of `i` are no earlier than the parent of `i`.
spec fn ordered_below(s: Seq<EventHeader>, i: int) -> bool {
    &&& forall|j: int|
        0 < j < s.len() && parent(j) != i ==> not_later(s[parent(j)], #[trigger] s[j])
    &&& forall|j: int|
        0 < j < s.len() && parent(j) == i && i > 0 ==> not_later(s[parent(i)], #[trigger] s[j])
}

spec fn swapped(s: Seq<EventHeader>, i: int, j: int) -> Seq<EventHeader> {
    s.update(i, s[j]).update(j, s[i])
}

proof fn lemma_swap_keeps_contents(s: Seq<EventHeader>, i: int, j: int)
    requires
        0 <= i < s.len(),
        0 <= j < s.len(),
    ensures
        swapped(s, i, j).to_set() == s.to_set(),
        distinct_ids(s) ==> distinct_ids(swapped(s, i, j)),
{
    let t = swapped(s, i, j);
    assert forall|x: EventHeader| t.to_set().contains(x) == s.to_set().contains(x) by {
        if t.contains(x) {
            let k = choose|k: int| 0 <= k < t.len() && t[k] == x;
            if k == i {
                assert(s[j] == x);
            } else if k == j {
                assert(s[i] == x);
            } else {
                assert(s[k] == x);
            }
        }
        if s.contains(x) {
            let k = choose|k: int| 0 <= k < s.len() && s[k] == x;
            if k == i {
                assert(t[j] == x);
            } else if k == j {
                assert(t[i] == x);
            } else {
                assert(t[k] == x);
            }
        }
    }
    assert(t.to_set() =~= s.to_set());
    if distinct_ids(s) {
        assert forall|a: int, b: int| 0 <= a < b < t.len() implies (#[trigger] t[a]).id != (
        #[trigger] t[b]).id by {
            let a0 = if a == i { j } else if a == j { i } else { a };
            let b0 = if b == i { j } else if b == j { i } else { b };
            assert(t[a] == s[a0]);
            assert(t[b] == s[b0]);
            if a0 < b0 {
                assert(s[a0].id != s[b0].id);
            } else {
                assert(s[b0].id != s[a0].id);
            }
        }
    }
}

proof fn lemma_root_is_earliest(s: Seq<EventHeader>, j: int)
    requires
        heap_ordered(s),
        0 <= j < s.len(),
    ensures
        not_later(s[0], s[j]),
    decreases j,
{
    if j > 0 {
        lemma_root_is_earliest(s, parent(j));
        assert(not_later(s[parent(j)], s[j]));
    }
}

/// The pending events of a simulation.
pub struct EventQueue {
    heap: Vec<EventHeader>,
}

impl View for EventQueue {
    type V = Set<EventHeader>;

    closed spec fn view(&self) -> Set<EventHeader> {
        self.heap@.to_set()
    }
}

impl EventQueue {
    /// The representation invariant: heap order, and no event id twice.
    pub closed spec fn wf(&self) -> bool {
        &&& heap_ordered(self.heap@)
        &&& distinct_ids(self.heap@)
    }

    /// The number of events held.
    pub closed spec fn count(&self) -> nat {
        self.heap@.len()
    }

    /// An id occurs at most once among the events of a well-formed queue.
    pub proof fn lemma_ids_unique(&self, a: EventHeader, b: EventHeader)
        requires
            self.wf(),
            self@.contains(a),
            self@.contains(b),
            a.id == b.id,
        ensures
            a == b,
    {
        let s = self.heap@;
        let i = choose|i: int| 0 <= i < s.len() && s[i] == a;
        let j = choose|j: int| 0 <= j < s.len() && s[j] == b;
        if i < j {
            assert(s[i].id != s[j].id);
        } else if j < i {
            assert(s[j].id != s[i].id);
        }
    }

    /// A well-formed queue has at most one earliest event.
    pub proof fn lemma_earliest_unique(&self, a: EventHeader, b: EventHeader)
        requires
            self.wf(),
            is_earliest(a, self@),
            is_earliest(b, self@),
        ensures
            a == b,
    {
        assert(not_later(a, b) && not_later(b, a));
        self.lemma_ids_unique(a, b);
    }

    /// The events of a queue are finitely many, and `count` is their number.
    pub proof fn lemma_count(&self)
        requires
            self.wf(),
        ensures
            self@.finite(),
            self@.len() == self.count(),
            self.count() == 0 <==> self@ == Set::<EventHeader>::empty(),
    {
        let s = self.heap@;
        vstd::seq_lib::seq_to_set_is_finite(s);
        assert(s.no_duplicates()) by {
            assert forall|i: int, j: int| 0 <= i < s.len() && 0 <= j < s.len() && i != j implies s[i]
                != s[j] by {
                if i < j {
                    assert(s[i].id != s[j].id);
                } else {
                    assert(s[j].id != s[i].id);
                }
            }
        }
        s.unique_seq_to_set();
        if s.len() == 0 {
            assert(s.to_set() =~= Set::<EventHeader>::empty());
        } else {
            assert(s.to_set().contains(s[0]));
        }
    }

    /// An empty queue.
    pub fn new() -> (q: Self)
        ensures
            q.wf(),
            q@ == Set::<EventHeader>::empty(),
            q.count() == 0,
    {
        let q = EventQueue { heap: Vec::new() };
        assert(q.heap@.to_set() =~= Set::<EventHeader>::empty());
        q
    }

    /// The number of events held.
    pub fn len(&self) -> (n: usize)
        ensures
            n == self.count(),
    {
        self.heap.len()
    }

    /// Whether no event is held.
    pub fn is_empty(&self) -> (b: bool)
        requires
            self.wf(),
        ensures
            b == (self@ == Set::<EventHeader>::empty()),
    {
        proof {
            self.lemma_count();
        }
        self.heap.len() == 0
    }

    /// Adds an event whose id the queue does not hold yet.
    pub fn push(&mut self, e: EventHeader)
        requires
            old(self).wf(),
            forall|x: EventHeader| old(self)@.contains(x) ==> x.id != e.id,
        ensures
            final(self).wf(),
            final(self)@ == old(self)@.insert(e),
            final(self).count() == old(self).count() + 1,
    {
        let ghost before = self.heap@;
        self.heap.push(e);
        let mut i: usize = self.heap.len() - 1;
        proof {
            let s = self.heap@;
            assert(s == before.push(e));
            assert(s.to_set() =~= before.to_set().insert(e)) by {
                assert forall|x: EventHeader| s.to_set().contains(x) == before.to_set().insert(
                    e,
                ).contains(x) by {
                    if s.contains(x) {
                        let k = choose|k: int| 0 <= k < s.len() && s[k] == x;
                        if k < before.len() {
                            assert(before[k] == x);
                        }
                    }
                    if before.contains(x) {
                        let k = choose|k: int| 0 <= k < before.len() && before[k] == x;
                        assert(s[k] == x);
                    }
                    if x == e {
                        assert(s[before.len() as int] == x);
                    }
                }
            }
            assert(distinct_ids(s)) by {
                assert forall|a: int, b: int| 0 <= a < b < s.len() implies (#[trigger] s[a]).id != (
                #[trigger] s[b]).id by {
                    if b == before.len() {
                        assert(s[a] == before[a]);
                        assert(s[b] == e);
                        assert(before.contains(before[a]));
                        assert(old(self)@.contains(before[a]));
                    } else {
                        assert(s[a] == before[a]);
                        assert(s[b] == before[b]);
                        assert(before[a].id != before[b].id);
                    }
                }
            }
            assert(ordered_except(s, i as int)) by {
                assert forall|j: int| 0 < j < s.len() && j != i implies not_later(
                    s[parent(j)],
                    #[trigger] s[j],
                ) by {
                    assert(not_later(before[parent(j)], before[j]));
                }
            }
        }
        let mut settled = false;
        while i > 0 && !settled
            invariant
                0 <= i < self.heap@.len(),
                self.heap@.len() == before.len() + 1,
                settled ==> heap_ordered(self.heap@),
                !settled ==> ordered_except(self.heap@, i as int),
                distinct_ids(self.heap@),
                self.heap@.to_set() == before.to_set().insert(e),
            decreases i + (if settled { 0int } else { 1int }),
        {
            let p: usize = (i - 1) / 2;
            let child = self.heap[i];
            let up = self.heap[p];
            if !child.precedes(&up) {
                proof {
                    let s = self.heap@;
                    assert(not_later(up, child));
                    assert(heap_ordered(s)) by {
                        assert forall|j: int| 0 < j < s.len() implies not_later(
                            s[parent(j)],
                            #[trigger] s[j],
                        ) by {
                        }
                    }
                }
                settled = true;
                continue;
            }
            let ghost s0 = self.heap@;
            self.heap.set(i, up);
            self.heap.set(p, child);
            proof {
                let s1 = self.heap@;
                assert(s1 == swapped(s0, i as int, p as int));
                lemma_swap_keeps_contents(s0, i as int, p as int);
                assert(ordered_except(s1, p as int)) by {
                    assert forall|j: int| 0 < j < s1.len() && j != p implies not_later(
                        s1[parent(j)],
                        #[trigger] s1[j],
                    ) by {
                        if j == i {
                            // the pair just swapped: the earlier one is on top now
                        } else if parent(j) == i {
                            assert(not_later(s0[parent(i as int)], s0[j]));
                        } else if parent(j) == p {
                            assert(not_later(s0[p as int], s0[j]));
                        } else {
                            assert(not_later(s0[parent(j)], s0[j]));
                        }
                    }
                    assert forall|j: int|
                        0 < j < s1.len() && parent(j) == p && p > 0 implies not_later(
                        s1[parent(p as int)],
                        #[trigger] s1[j],
                    ) by {
                        assert(not_later(s0[parent(p as int)], s0[p as int]));
                        if j != i {
                            assert(not_later(s0[p as int], s0[j]));
                        }
                    }
                }
            }
            i = p;
        }
        proof {
            let s = self.heap@;
            assert(heap_ordered(s)) by {
                assert forall|j: int| 0 < j < s.len() implies not_later(
                    s[parent(j)],
                    #[trigger] s[j],
                ) by {
                }
            }
        }
    }

    /// The ids of the events that removing the handler of `id` under `policy` cancels.
    pub(crate) fn purged_ids(&self, id: Id, policy: &EventCancellationPolicy) -> (ids: Vec<EventId>)
        ensures
            forall|k: EventId|
                ids@.contains(k) <==> exists|e: EventHeader|
                    #[trigger] self@.contains(e) && e.id == k && purged(e, id, *policy),
    {
        let mut ids: Vec<EventId> = Vec::new();
        let mut i: usize = 0;
        while i < self.heap.len()
            invariant
                0 <= i <= self.heap@.len(),
                forall|k: EventId|
                    ids@.contains(k) <==> exists|j: int|
                        0 <= j < i && (#[trigger] self.heap@[j]).id == k && purged(
                            self.heap@[j],
                            id,
                            *policy,
                        ),
            decreases self.heap@.len() - i,
        {
            let e = self.heap[i];
            let ghost before = ids@;
            if policy.cancels(id, &e) {
                ids.push(e.id);
                proof {
                    assert forall|k: EventId|
                        ids@.contains(k) <==> exists|j: int|
                            0 <= j < i + 1 && (#[trigger] self.heap@[j]).id == k && purged(
                                self.heap@[j],
                                id,
                                *policy,
                            ) by {
                        if ids@.contains(k) {
                            let x = choose|x: int| 0 <= x < ids@.len() && ids@[x] == k;
                            if x < before.len() {
                                assert(before[x] == k);
                                assert(before.contains(k));
                            } else {
                                assert(self.heap@[i as int].id == k);
                            }
                        }
                        if exists|j: int|
                            0 <= j < i + 1 && (#[trigger] self.heap@[j]).id == k && purged(
                                self.heap@[j],
                                id,
                                *policy,
                            ) {
                            let j = choose|j: int|
                                0 <= j < i + 1 && (#[trigger] self.heap@[j]).id == k && purged(
                                    self.heap@[j],
                                    id,
                                    *policy,
                                );
                            if j < i {
                                assert(before.contains(k));
                                let x = choose|x: int| 0 <= x < before.len() && before[x] == k;
                                assert(ids@[x] == k);
                            } else {
                                assert(ids@[before.len() as int] == k);
                            }
                        }
                    }
                }
            }
            i = i + 1;
        }
        proof {
            assert forall|k: EventId|
                ids@.contains(k) <==> exists|e: EventHeader|
                    #[trigger] self@.contains(e) && e.id == k && purged(e, id, *policy) by {
                if ids@.contains(k) {
                    let j = choose|j: int|
                        0 <= j < i && (#[trigger] self.heap@[j]).id == k && purged(
                            self.heap@[j],
                            id,
                            *policy,
                        );
                    assert(self.heap@.contains(self.heap@[j]));
                    assert(self@.contains(self.heap@[j]));
                }
                if exists|e: EventHeader|
                    #[trigger] self@.contains(e) && e.id == k && purged(e, id, *policy) {
                    let e = choose|e: EventHeader|
                        #[trigger] self@.contains(e) && e.id == k && purged(e, id, *policy);
                    let j = choose|j: int| 0 <= j < self.heap@.len() && self.heap@[j] == e;
                    assert(self.heap@[j].id == k);
                }
            }
        }
        ids
    }

    /// The event that is delivered next, if any.
    pub fn peek(&self) -> (r: Option<EventHeader>)
        requires
            self.wf(),
        ensures
            r is None <==> self@ == Set::<EventHeader>::empty(),
            r matches Some(e) ==> is_earliest(e, self@),
    {
        proof {
            self.lemma_count();
        }
        if self.heap.len() == 0 {
            None
        } else {
            let e = self.heap[0];
            proof {
                let s = self.heap@;
                assert(s.contains(s[0]));
                assert forall|x: EventHeader| #[trigger] self@.contains(x) implies not_later(e, x) by {
                    let k = choose|k: int| 0 <= k < s.len() && s[k] == x;
                    lemma_root_is_earliest(s, k);
                }
            }
            Some(e)
        }
    }

    /// Removes and returns the event that is delivered next, if any.
    pub fn pop(&mut self) -> (r: Option<EventHeader>)
        requires
            old(self).wf(),
        ensures
            final(self).wf(),
            r is None <==> old(self)@ == Set::<EventHeader>::empty(),
            r is None ==> final(self)@ == old(self)@,
            r matches Some(e) ==> is_earliest(e, old(self)@) && final(self)@ == old(self)@.remove(e)
                && final(self).count() == old(self).count() - 1,
    {
        proof {
            self.lemma_count();
        }
        let n = self.heap.len();
        if n == 0 {
            return None;
        }
        let ghost before = self.heap@;
        let top = self.heap[0];
        let last = self.heap[n - 1];
        proof {
            assert(before.contains(before[0]));
            assert forall|x: EventHeader| #[trigger] before.to_set().contains(x) implies not_later(
                top,
                x,
            ) by {
                let k = choose|k: int| 0 <= k < before.len() && before[k] == x;
                lemma_root_is_earliest(before, k);
            }
        }
        self.heap.set(0, last);
        self.heap.pop();
        proof {
            let s = self.heap@;
            assert(s.len() == n - 1);
            assert forall|k: int| 0 < k < s.len() implies #[trigger] s[k] == before[k] by {}
            assert(s.len() > 0 ==> s[0] == before[n - 1]);
            assert(s.to_set() =~= before.to_set().remove(top)) by {
                assert forall|x: EventHeader| s.to_set().contains(x) == before.to_set().remove(
                    top,
                ).contains(x) by {
                    if s.contains(x) {
                        let k = choose|k: int| 0 <= k < s.len() && s[k] == x;
                        if k == 0 {
                            assert(before[n - 1] == x);
                            assert(before[0].id != before[n - 1].id);
                        } else {
                            assert(before[k] == x);
                            assert(before[0].id != before[k].id);
                        }
                    }
                    if before.contains(x) && x != top {
                        let k = choose|k: int| 0 <= k < before.len() && before[k] == x;
                        if k == n - 1 {
                            assert(s[0] == x);
                        } else {
                            assert(s[k] == x);
                        }
                    }
                }
            }
            assert(distinct_ids(s)) by {
                assert forall|a: int, b: int| 0 <= a < b < s.len() implies (#[trigger] s[a]).id != (
                #[trigger] s[b]).id by {
                    if a == 0 {
                        assert(before[b].id != before[n - 1].id);
                    } else {
                        assert(before[a].id != before[b].id);
                    }
                }
            }
            assert(ordered_below(s, 0)) by {
                assert forall|j: int| 0 < j < s.len() && parent(j) != 0 implies not_later(
                    s[parent(j)],
                    #[trigger] s[j],
                ) by {
                    assert(not_later(before[parent(j)], before[j]));
                }
            }
        }
        let m = self.heap.len();
        let mut i: usize = 0;
        let mut settled = false;
        while i < m / 2 && !settled
            invariant
                m == self.heap@.len(),
                0 <= i,
                i < m || m == 0,
                settled ==> heap_ordered(self.heap@),
                !settled ==> ordered_below(self.heap@, i as int),
                distinct_ids(self.heap@),
                self.heap@.to_set() == before.to_set().remove(top),
            decreases m - i + (if settled { 0int } else { 1int }),
        {
            let l: usize = 2 * i + 1;
            let r: usize = 2 * i + 2;
            let mut c: usize = l;
            if r < m {
                let right = self.heap[r];
                let left = self.heap[l];
                if right.precedes(&left) {
                    c = r;
                }
            }
            let here = self.heap[i];
            let below = self.heap[c];
            if !below.precedes(&here) {
                proof {
                    let s = self.heap@;
                    assert(not_later(here, below));
                    assert(heap_ordered(s)) by {
                        assert forall|j: int| 0 < j < s.len() implies not_later(
                            s[parent(j)],
                            #[trigger] s[j],
                        ) by {
                            if parent(j) == i {
                                assert(j == l || j == r);
                            }
                        }
                    }
                }
                settled = true;
                continue;
            }
            let ghost s0 = self.heap@;
            self.heap.set(i, below);
            self.heap.set(c, here);
            proof {
                let s1 = self.heap@;
                assert(s1 == swapped(s0, i as int, c as int));
                lemma_swap_keeps_contents(s0, i as int, c as int);
                assert(ordered_below(s1, c as int)) by {
                    assert forall|j: int| 0 < j < s1.len() && parent(j) != c implies not_later(
                        s1[parent(j)],
                        #[trigger] s1[j],
                    ) by {
                        if j == c {
                            // the pair just swapped: the earlier one is on top now
                        } else if parent(j) == i {
                            assert(j == l || j == r);
                            assert(j == l + r - c);
                        } else if j == i {
                            assert(not_later(s0[parent(i as int)], s0[c as int]));
                        } else {
                            assert(not_later(s0[parent(j)], s0[j]));
                        }
                    }
                    assert forall|j: int|
                        0 < j < s1.len() && parent(j) == c && c > 0 implies not_later(
                        s1[parent(c as int)],
                        #[trigger] s1[j],
                    ) by {
                        assert(not_later(s0[c as int], s0[j]));
                    }
                }
            }
            i = c;
        }
        proof {
            let s = self.heap@;
            assert(heap_ordered(s)) by {
                assert forall|j: int| 0 < j < s.len() implies not_later(
                    s[parent(j)],
                    #[trigger] s[j],
                ) by {
                }
            }
        }
        Some(top)
    }
}

} // verus!
