//! The bookkeeping of a single-shot broadcast primitive.
//!
//! Waiters register under a slot key and a generation number; notifying
//! drains every slot and bumps the generation. A waiter that is dropped
//! before being notified deregisters itself — but only when its generation
//! still matches, so a stale drop (after a notification already drained its
//! slot, under a possibly reused key) never frees someone else's slot.
//! This is what keeps cancelled waits from leaking slots.

use vstd::prelude::*;

verus! {

/// Slot `k` currently holds a waiter.
pub open spec fn occupied(slots: Seq<bool>, k: int) -> bool {
    0 <= k < slots.len() && slots[k]
}

/// The number of occupied slots.
pub open spec fn count_true(slots: Seq<bool>) -> int
    decreases slots.len(),
{
    if slots.len() == 0 {
        0
    } else {
        count_true(slots.drop_last()) + if slots.last() {
            1int
        } else {
            0int
        }
    }
}

/// The lowest free slot index, or the length when all slots are occupied.
pub open spec fn first_free(slots: Seq<bool>) -> int
    decreases slots.len(),
{
    if slots.len() == 0 {
        0
    } else if !slots[0] {
        0
    } else {
        1 + first_free(slots.drop_first())
    }
}

/// `first_free` points at the lowest free slot, or past the end.
pub proof fn lemma_first_free(slots: Seq<bool>)
    ensures
        0 <= first_free(slots) <= slots.len(),
        first_free(slots) < slots.len() ==> !slots[first_free(slots)],
        forall|k: int| 0 <= k < first_free(slots) ==> slots[k],
    decreases slots.len(),
{
    if slots.len() > 0 && slots[0] {
        lemma_first_free(slots.drop_first());
        assert forall|k: int| 0 <= k < first_free(slots) implies slots[k] by {
            if k >= 1 {
                assert(slots.drop_first()[k - 1] == slots[k]);
                assert(slots.drop_first()[k - 1]);
            }
        }
    }
}

/// An index that is free with every lower slot occupied is `first_free`.
pub proof fn lemma_first_free_unique(slots: Seq<bool>, i: int)
    requires
        0 <= i < slots.len(),
        !slots[i],
        forall|k: int| 0 <= k < i ==> slots[k],
    ensures
        first_free(slots) == i,
{
    lemma_first_free(slots);
    let f = first_free(slots);
    if f < i {
        assert(slots[f]);
    }
    if f > i {
        assert(slots[i]);
    }
}

/// The sequence with every trailing free slot removed.
pub open spec fn compacted(slots: Seq<bool>) -> Seq<bool>
    decreases slots.len(),
{
    if slots.len() == 0 {
        slots
    } else if !slots.last() {
        compacted(slots.drop_last())
    } else {
        slots
    }
}

/// Compaction keeps occupancy: the surviving prefix holds the same waiters.
pub proof fn lemma_compacted_occupancy(slots: Seq<bool>)
    ensures
        compacted(slots).len() <= slots.len(),
        forall|k: int| occupied(compacted(slots), k) <==> occupied(slots, k),
        compacted(slots).len() > 0 ==> compacted(slots).last(),
        compacted(slots) == slots.subrange(0, compacted(slots).len() as int),
    decreases slots.len(),
{
    if slots.len() == 0 {
    } else if !slots.last() {
        lemma_compacted_occupancy(slots.drop_last());
        assert(slots.drop_last() =~= slots.subrange(0, slots.len() - 1));
        assert(slots.drop_last().subrange(0, compacted(slots).len() as int) =~= slots.subrange(
            0,
            compacted(slots).len() as int,
        ));
        assert forall|k: int| occupied(compacted(slots), k) <==> occupied(slots, k) by {
            if 0 <= k < slots.len() - 1 {
                assert(slots.drop_last()[k] == slots[k]);
                assert(occupied(compacted(slots), k) <==> occupied(slots.drop_last(), k));
            } else if k == slots.len() - 1 {
                assert(!slots[k]);
                assert(compacted(slots).len() <= slots.len() - 1);
            }
        }
    } else {
        assert(compacted(slots) =~= slots.subrange(0, slots.len() as int));
    }
}

/// The waiter registry of the broadcast primitive.
pub struct Notify {
    /// Bumped on every notification; guards against a stale drop freeing a
    /// reused slot.
    pub generation: u64,
    /// Slot occupancy; a registered waiter owns one `true` slot.
    pub slots: Vec<bool>,
}

impl Notify {
    /// The registry stays compact: the last slot, if any, is occupied, so an
    /// empty registry means an empty vector.
    pub open spec fn wf(self) -> bool {
        self.slots@.len() > 0 ==> self.slots@.last()
    }

    /// A fresh registry with no waiters.
    pub fn new() -> (n: Notify)
        ensures
            n.wf(),
            n.generation == 0,
            n.slots@ == Seq::<bool>::empty(),
    {
        Notify { generation: 0, slots: Vec::new() }
    }

    /// Registers a waiter: occupies the lowest free slot (growing by one
    /// slot when all are occupied) and hands back its key, together with the
    /// current generation to present on deregistration.
    pub fn register(&mut self) -> (r: (usize, u64))
        requires
            old(self).wf(),
        ensures
            final(self).wf(),
            final(self).generation == old(self).generation,
            r.1 == old(self).generation,
            r.0 == first_free(old(self).slots@),
            !occupied(old(self).slots@, r.0 as int),
            final(self).slots@ == if (r.0 as int) < old(self).slots@.len() {
                old(self).slots@.update(r.0 as int, true)
            } else {
                old(self).slots@.push(true)
            },
            occupied(final(self).slots@, r.0 as int),
    {
        let n = self.slots.len();
        let mut i: usize = 0;
        while i < n
            invariant
                self.slots@ == old(self).slots@,
                self.generation == old(self).generation,
                old(self).wf(),
                n == self.slots@.len(),
                0 <= i <= n,
                forall|k: int| 0 <= k < i ==> self.slots@[k],
            decreases n - i,
        {
            if !self.slots[i] {
                proof {
                    lemma_first_free_unique(self.slots@, i as int);
                }
                self.slots.set(i, true);
                proof {
                    assert(self.slots@.last());
                }
                return (i, self.generation);
            }
            i = i + 1;
        }
        proof {
            lemma_first_free(self.slots@);
        }
        self.slots.push(true);
        (n, self.generation)
    }

    /// Deregisters a dropped waiter. When its generation still matches, its
    /// slot is freed (and trailing free slots are released); a stale drop —
    /// one that a notification has already drained — changes nothing.
    pub fn deregister(&mut self, generation: u64, key: usize)
        requires
            old(self).wf(),
            generation == old(self).generation ==> occupied(old(self).slots@, key as int),
        ensures
            final(self).wf(),
            final(self).generation == old(self).generation,
            generation == old(self).generation ==> final(self).slots@ == compacted(
                old(self).slots@.update(key as int, false),
            ),
            generation != old(self).generation ==> final(self).slots@ == old(self).slots@,
    {
        if generation != self.generation {
            return ;
        }
        self.slots.set(key, false);
        let ghost updated = self.slots@;
        loop
            invariant
                self.generation == old(self).generation,
                compacted(self.slots@) == compacted(updated),
            ensures
                self.generation == old(self).generation,
                self.slots@ == compacted(updated),
            decreases self.slots@.len(),
        {
            let len = self.slots.len();
            if len == 0 {
                break ;
            }
            if self.slots[len - 1] {
                break ;
            }
            let ghost pre = self.slots@;
            self.slots.pop();
            proof {
                assert(self.slots@ =~= pre.drop_last());
            }
        }
        proof {
            lemma_compacted_occupancy(updated);
        }
    }

    /// Notifies every waiter: returns the occupied keys (whose wakers the
    /// caller wakes), drains all slots, and bumps the generation so that
    /// late drops of the drained waiters are ignored.
    pub fn notify_waiters(&mut self) -> (keys: Vec<usize>)
        requires
            old(self).wf(),
        ensures
            final(self).wf(),
            final(self).generation == if old(self).generation < u64::MAX {
                (old(self).generation + 1) as u64
            } else {
                0
            },
            final(self).slots@ == Seq::<bool>::empty(),
            keys@.len() == count_true(old(self).slots@),
            forall|j: int|
                0 <= j < keys@.len() ==> occupied(old(self).slots@, #[trigger] keys@[j] as int),
            forall|j1: int, j2: int| 0 <= j1 < j2 < keys@.len() ==> keys@[j1] < keys@[j2],
    {
        let ghost slots0 = self.slots@;
        let mut keys: Vec<usize> = Vec::new();
        let n = self.slots.len();
        let mut i: usize = 0;
        while i < n
            invariant
                n == slots0.len() == self.slots@.len(),
                self.slots@ == slots0,
                0 <= i <= n,
                keys@.len() == count_true(slots0.subrange(0, i as int)),
                forall|j: int| 0 <= j < keys@.len() ==> occupied(slots0, #[trigger] keys@[j] as int),
                forall|j: int| 0 <= j < keys@.len() ==> keys@[j] < i,
                forall|j1: int, j2: int| 0 <= j1 < j2 < keys@.len() ==> keys@[j1] < keys@[j2],
            decreases n - i,
        {
            let ghost pre = slots0.subrange(0, i as int);
            if self.slots[i] {
                keys.push(i);
            }
            i = i + 1;
            proof {
                assert(slots0.subrange(0, i as int).drop_last() =~= pre);
                assert(slots0.subrange(0, i as int).last() == slots0[i as int - 1]);
            }
        }
        proof {
            assert(slots0.subrange(0, n as int) =~= slots0);
        }
        self.slots.clear();
        if self.generation < u64::MAX {
            self.generation = self.generation + 1;
        } else {
            self.generation = 0;
        }
        keys
    }

    /// How many waiters are currently registered.
    pub fn waiter_count(&self) -> (c: usize)
        ensures
            c == count_true(self.slots@),
    {
        let ghost slots0 = self.slots@;
        let mut c: usize = 0;
        let n = self.slots.len();
        let mut i: usize = 0;
        while i < n
            invariant
                n == self.slots@.len(),
                0 <= i <= n,
                c <= i,
                c == count_true(self.slots@.subrange(0, i as int)),
            decreases n - i,
        {
            let ghost pre = self.slots@.subrange(0, i as int);
            if self.slots[i] {
                c = c + 1;
            }
            i = i + 1;
            proof {
                assert(self.slots@.subrange(0, i as int).drop_last() =~= pre);
                assert(self.slots@.subrange(0, i as int).last() == self.slots@[i as int - 1]);
            }
        }
        proof {
            assert(self.slots@.subrange(0, n as int) =~= self.slots@);
        }
        c
    }

    /// How many slots the registry holds at all (its footprint).
    pub fn slot_count(&self) -> (c: usize)
        ensures
            c == self.slots@.len(),
    {
        self.slots.len()
    }
}

/// The protocol invariant tying a registry to the set of live waiter
/// futures, each identified by the `(generation, key)` pair it registered
/// under: a slot is occupied exactly when a live waiter of the current
/// generation owns it, and no waiter is from a future generation.
pub open spec fn notify_inv(generation: u64, slots: Seq<bool>, live: Set<(u64, int)>) -> bool {
    &&& forall|p: (u64, int)| live.contains(p) ==> #[trigger] p.0 <= generation
    &&& forall|k: int| occupied(slots, k) <==> live.contains((generation, k))
}

/// Registering preserves the invariant: the new waiter joins `live` under
/// the current generation and a previously free key.
pub proof fn lemma_register_preserves(generation: u64, slots: Seq<bool>, live: Set<(u64, int)>)
    requires
        notify_inv(generation, slots, live),
    ensures
        !live.contains((generation, first_free(slots))),
        notify_inv(
            generation,
            if first_free(slots) < slots.len() {
                slots.update(first_free(slots), true)
            } else {
                slots.push(true)
            },
            live.insert((generation, first_free(slots))),
        ),
{
    lemma_first_free(slots);
    let f = first_free(slots);
    assert(!occupied(slots, f));
    let new_slots = if f < slots.len() {
        slots.update(f, true)
    } else {
        slots.push(true)
    };
    let new_live = live.insert((generation, f));
    assert forall|k: int| occupied(new_slots, k) <==> new_live.contains((generation, k)) by {
        if k != f {
            assert(occupied(new_slots, k) == occupied(slots, k));
            assert(new_live.contains((generation, k)) == live.contains((generation, k)));
        }
    }
}

/// Dropping a live waiter preserves the invariant, whether its slot is
/// freed (matching generation) or the drop is stale (older generation).
pub proof fn lemma_drop_preserves(
    generation: u64,
    slots: Seq<bool>,
    live: Set<(u64, int)>,
    p: (u64, int),
)
    requires
        notify_inv(generation, slots, live),
        live.contains(p),
    ensures
        p.0 == generation ==> notify_inv(
            generation,
            compacted(slots.update(p.1, false)),
            live.remove(p),
        ),
        p.0 != generation ==> notify_inv(generation, slots, live.remove(p)),
{
    if p.0 == generation {
        let updated = slots.update(p.1, false);
        lemma_compacted_occupancy(updated);
        assert(occupied(slots, p.1));
        assert forall|k: int| occupied(compacted(updated), k) <==> live.remove(p).contains(
            (generation, k),
        ) by {
            assert(occupied(compacted(updated), k) == occupied(updated, k));
            if k != p.1 {
                assert(occupied(updated, k) == occupied(slots, k));
            }
        }
    } else {
        assert forall|k: int| occupied(slots, k) <==> live.remove(p).contains((generation, k)) by {
            assert((generation, k) != p);
        }
    }
}

/// Notifying preserves the invariant: the registry empties, the generation
/// moves past every live waiter, and the woken futures stay live until they
/// are themselves dropped (their stale drops will then be ignored).
pub proof fn lemma_notify_preserves(generation: u64, slots: Seq<bool>, live: Set<(u64, int)>)
    requires
        notify_inv(generation, slots, live),
        generation < u64::MAX,
    ensures
        notify_inv((generation + 1) as u64, Seq::<bool>::empty(), live),
{
    assert forall|k: int|
        occupied(Seq::<bool>::empty(), k) <==> live.contains(((generation + 1) as u64, k)) by {
        if live.contains(((generation + 1) as u64, k)) {
            assert(((generation + 1) as u64, k).0 <= generation);
        }
    }
}

/// No leaks: once every waiter future has been dropped, a compact registry
/// that satisfies the invariant holds no slots at all — neither waiters nor
/// footprint.
pub proof fn lemma_no_leak(generation: u64, slots: Seq<bool>, live: Set<(u64, int)>)
    requires
        notify_inv(generation, slots, live),
        slots.len() > 0 ==> slots.last(),
        live == Set::<(u64, int)>::empty(),
    ensures
        slots == Seq::<bool>::empty(),
        count_true(slots) == 0,
{
    if slots.len() > 0 {
        assert(occupied(slots, slots.len() - 1));
        assert(live.contains((generation, slots.len() - 1)));
    }
    assert(slots =~= Seq::<bool>::empty());
}

} // verus!
