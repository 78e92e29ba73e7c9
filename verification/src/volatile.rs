//! Generation-based volatile eviction policy.
//!
//! This policy is for values that are useful during a short burst of queries
//! but can be aggressively discarded once the cache crosses a high-watermark.
use vstd::prelude::*;

use crossbeam_queue::SegQueue;
use std::collections::HashSet;

use crate::eviction::{EvictionPolicy, HasCapacity};
use crate::id::Id;

verus! {

broadcast use vstd::std_specs::hash::group_hash_axioms;

/// How many generations, besides the current one, a read keeps a value resident.
pub const GENERATIONS_TO_KEEP: usize = 1;

#[verifier::external_type_specification]
#[verifier::external_body]
#[verifier::reject_recursive_types(T)]
pub struct ExSegQueue<T>(SegQueue<T>);

/// The reads waiting in a read queue, oldest first, each as the index of
/// the id that was read and the generation in which it was read.
pub uninterp spec fn queued_reads(q: SegQueue<(u32, usize)>) -> Seq<(u32, usize)>;

/// `SegQueue::new`: a new queue holds no reads.
#[verifier::external_body]
fn read_queue_new() -> (q: SegQueue<(u32, usize)>)
    ensures
        queued_reads(q) == Seq::<(u32, usize)>::empty(),
{
    SegQueue::new()
}

/// `SegQueue::push`: the read is appended at the tail of the queue.
#[verifier::external_body]
fn read_queue_push(q: &mut SegQueue<(u32, usize)>, read: (u32, usize))
    ensures
        queued_reads(*final(q)) == queued_reads(*old(q)).push(read),
{
    q.push(read)
}

/// `SegQueue::pop`: removes and returns the oldest read, or returns `None`
/// and leaves the queue as it is when it is empty.
#[verifier::external_body]
fn read_queue_pop(q: &mut SegQueue<(u32, usize)>) -> (read: Option<(u32, usize)>)
    ensures
        queued_reads(*old(q)).len() == 0 ==> read is None && queued_reads(*final(q))
            == queued_reads(*old(q)),
        queued_reads(*old(q)).len() > 0 ==> read == Some(queued_reads(*old(q))[0])
            && queued_reads(*final(q)) == queued_reads(*old(q)).drop_first(),
{
    q.pop()
}

/// The reads of one policy that the current thread already published.
pub struct ThreadPolicyReads {
    generation: usize,
    ids: HashSet<u32>,
}

impl ThreadPolicyReads {
    /// The generation these reads belong to.
    pub closed spec fn spec_generation(&self) -> usize {
        self.generation
    }

    /// The indices of the ids read in that generation.
    pub closed spec fn spec_ids(&self) -> Set<u32> {
        self.ids@
    }

    /// Whether a read of `id` in `generation` has not been published yet.
    pub open spec fn is_new_read(&self, id: Id, generation: usize) -> bool {
        !(self.spec_generation() == generation && self.spec_ids().contains(id.spec_index()))
    }

    /// No reads, in generation zero.
    pub fn new() -> (r: ThreadPolicyReads)
        ensures
            r.spec_generation() == 0,
            r.spec_ids() == Set::<u32>::empty(),
    {
        ThreadPolicyReads { generation: 0, ids: HashSet::new() }
    }

    /// Notes a read of `id` in `generation`, forgetting the reads of any
    /// other generation; returns whether this is its first read there.
    pub fn note_read(&mut self, id: Id, generation: usize) -> (first: bool)
        ensures
            first == old(self).is_new_read(id, generation),
            final(self).spec_generation() == generation,
            final(self).spec_ids() == (if old(self).spec_generation() == generation {
                old(self).spec_ids()
            } else {
                Set::<u32>::empty()
            }).insert(id.spec_index()),
    {
        if self.generation != generation {
            self.generation = generation;
            self.ids.clear();
        }
        self.ids.insert(id.index())
    }
}

/// A value held by the policy, with the last generation in which it was read.
#[derive(Clone, Copy, PartialEq, Eq, Structural, Debug)]
pub struct Resident {
    pub id: Id,
    pub last_read: usize,
}

/// Whether no id is resident twice.
pub open spec fn distinct_ids(r: Seq<Resident>) -> bool {
    forall|i: int, j: int| 0 <= i < r.len() && 0 <= j < r.len() && i != j ==> r[i].id != r[j].id
}

/// Whether `id` is resident.
pub open spec fn is_resident(r: Seq<Resident>, id: Id) -> bool {
    exists|i: int| 0 <= i < r.len() && r[i].id == id
}

/// The resident values after `id` received a value in `generation`: an id
/// already resident keeps its place and is marked read now; a new id is
/// appended.
pub open spec fn insert_resident(r: Seq<Resident>, id: Id, generation: usize) -> Seq<Resident> {
    if is_resident(r, id) {
        Seq::new(
            r.len(),
            |i: int|
                if r[i].id == id {
                    Resident { id, last_read: generation }
                } else {
                    r[i]
                },
        )
    } else {
        r.push(Resident { id, last_read: generation })
    }
}

/// The resident values after one published read: the value read keeps the
/// later of its last read and this one.
pub open spec fn apply_read(r: Seq<Resident>, read: (u32, usize)) -> Seq<Resident> {
    Seq::new(
        r.len(),
        |i: int|
            if r[i].id.spec_index() == read.0 && r[i].last_read < read.1 {
                Resident { id: r[i].id, last_read: read.1 }
            } else {
                r[i]
            },
    )
}

/// The resident values after the published reads, oldest first.
pub open spec fn apply_reads(r: Seq<Resident>, reads: Seq<(u32, usize)>) -> Seq<Resident>
    decreases reads.len(),
{
    if reads.len() == 0 {
        r
    } else {
        apply_reads(apply_read(r, reads[0]), reads.drop_first())
    }
}

/// Values last read before this generation may be evicted.
pub open spec fn evict_before(generation: usize) -> usize {
    if generation >= GENERATIONS_TO_KEEP {
        (generation - GENERATIONS_TO_KEEP) as usize
    } else {
        0
    }
}

/// The generation after `generation`; the counter wraps around.
pub open spec fn next_generation(generation: usize) -> usize {
    if generation == usize::MAX {
        0
    } else {
        (generation + 1) as usize
    }
}

/// The state of an eviction scan after its first `i` values: the values
/// kept so far and the number of values still resident. `answers[k]` is
/// what the callback answered for value `k`, where it was asked.
pub open spec fn scan_state(
    r: Seq<Resident>,
    capacity: nat,
    before: usize,
    answers: Seq<bool>,
    i: nat,
) -> (Seq<Resident>, nat)
    decreases i,
{
    if i == 0 {
        (Seq::empty(), r.len())
    } else {
        let (kept, len) = scan_state(r, capacity, before, answers, (i - 1) as nat);
        let entry = r[i - 1];
        if len > capacity && entry.last_read < before && answers[i - 1] {
            (kept, (len - 1) as nat)
        } else {
            (kept.push(entry), len)
        }
    }
}

/// Whether the scan offers value `i` to the callback: the policy is still
/// over capacity and the value was last read before `before`.
pub open spec fn scan_asks(
    r: Seq<Resident>,
    capacity: nat,
    before: usize,
    answers: Seq<bool>,
    i: nat,
) -> bool {
    scan_state(r, capacity, before, answers, i).1 > capacity && r[i as int].last_read < before
}

/// The values an eviction scan keeps, in the order in which they were resident.
pub open spec fn kept_by_scan(
    r: Seq<Resident>,
    capacity: nat,
    before: usize,
    answers: Seq<bool>,
) -> Seq<Resident> {
    scan_state(r, capacity, before, answers, r.len()).0
}

/// The scan only looks at the answers for the values it has passed.
proof fn lemma_scan_state_prefix(
    r: Seq<Resident>,
    capacity: nat,
    before: usize,
    a: Seq<bool>,
    b: Seq<bool>,
    i: nat,
)
    requires
        i <= a.len(),
        i <= b.len(),
        forall|k: int| 0 <= k < i ==> a[k] == b[k],
    ensures
        scan_state(r, capacity, before, a, i) == scan_state(r, capacity, before, b, i),
    decreases i,
{
    if i > 0 {
        lemma_scan_state_prefix(r, capacity, before, a, b, (i - 1) as nat);
    }
}

/// After `i` values, the kept values and the resident count agree: every
/// value passed is either kept or evicted.
proof fn lemma_scan_state_counts(
    r: Seq<Resident>,
    capacity: nat,
    before: usize,
    answers: Seq<bool>,
    i: nat,
)
    requires
        i <= r.len(),
    ensures
        scan_state(r, capacity, before, answers, i).0.len() + r.len() - i == scan_state(
            r,
            capacity,
            before,
            answers,
            i,
        ).1,
        scan_state(r, capacity, before, answers, i).1 <= r.len(),
        r.len() >= capacity ==> scan_state(r, capacity, before, answers, i).1 >= capacity,
        r.len() <= capacity ==> scan_state(r, capacity, before, answers, i).1 == r.len(),
    decreases i,
{
    if i > 0 {
        lemma_scan_state_counts(r, capacity, before, answers, (i - 1) as nat);
    }
}

/// Eviction never takes the number of resident values below the capacity:
/// a scan of `r` keeps at least `min(capacity, r.len())` values.
pub proof fn lemma_eviction_keeps_capacity(
    r: Seq<Resident>,
    capacity: nat,
    before: usize,
    answers: Seq<bool>,
)
    ensures
        kept_by_scan(r, capacity, before, answers).len() >= if r.len() < capacity {
            r.len()
        } else {
            capacity
        },
{
    lemma_scan_state_counts(r, capacity, before, answers, r.len());
}

/// Every value kept by the first `i` steps of a scan is one of the first
/// `i` values, and every one of them that was read recently enough, or not
/// evicted by the callback, is kept.
proof fn lemma_scan_state_members(
    r: Seq<Resident>,
    capacity: nat,
    before: usize,
    answers: Seq<bool>,
    i: nat,
)
    requires
        i <= r.len(),
    ensures
        forall|k: int|
            0 <= k < i && (r[k].last_read >= before || !answers[k]) ==> scan_state(
                r,
                capacity,
                before,
                answers,
                i,
            ).0.contains(#[trigger] r[k]),
        forall|x: Resident|
            scan_state(r, capacity, before, answers, i).0.contains(x) ==> r.take(i as int).contains(
                x,
            ),
    decreases i,
{
    if i > 0 {
        let j = (i - 1) as nat;
        lemma_scan_state_members(r, capacity, before, answers, j);
        let prev = scan_state(r, capacity, before, answers, j);
        let cur = scan_state(r, capacity, before, answers, i);
        assert forall|k: int|
            0 <= k < i && (r[k].last_read >= before || !answers[k]) implies cur.0.contains(
            #[trigger] r[k],
        ) by {
            if k < j {
                assert(prev.0.contains(r[k]));
                let w = choose|w: int| 0 <= w < prev.0.len() && prev.0[w] == r[k];
                if cur.0 != prev.0 {
                    assert(cur.0[w] == r[k]);
                }
            } else {
                assert(cur.0 == prev.0.push(r[k]));
                assert(cur.0[prev.0.len() as int] == r[k]);
            }
        }
        assert forall|x: Resident| cur.0.contains(x) implies r.take(i as int).contains(x) by {
            let w = choose|w: int| 0 <= w < cur.0.len() && cur.0[w] == x;
            if w < prev.0.len() {
                assert(prev.0[w] == x);
                assert(prev.0.contains(x));
                assert(r.take(j as int).contains(x));
                let v = choose|v: int| 0 <= v < r.take(j as int).len() && r.take(j as int)[v] == x;
                assert(r.take(i as int)[v] == x);
            } else {
                assert(x == r[j as int]);
                assert(r.take(i as int)[j as int] == x);
            }
        }
    }
}

/// Values read in the current or the previous generation survive every
/// eviction, and the scan keeps only values that were resident.
pub proof fn lemma_recent_reads_survive(
    r: Seq<Resident>,
    capacity: nat,
    before: usize,
    answers: Seq<bool>,
)
    ensures
        forall|k: int|
            0 <= k < r.len() && r[k].last_read >= before ==> kept_by_scan(
                r,
                capacity,
                before,
                answers,
            ).contains(#[trigger] r[k]),
        forall|x: Resident| kept_by_scan(r, capacity, before, answers).contains(x) ==> r.contains(x),
{
    lemma_scan_state_members(r, capacity, before, answers, r.len());
    assert(r.take(r.len() as int) == r);
}

/// A value that the callback refused to evict stays resident.
pub proof fn lemma_refused_values_stay(
    r: Seq<Resident>,
    capacity: nat,
    before: usize,
    answers: Seq<bool>,
    k: int,
)
    requires
        0 <= k < r.len(),
        k < answers.len(),
        !answers[k],
    ensures
        kept_by_scan(r, capacity, before, answers).contains(r[k]),
{
    lemma_scan_state_members(r, capacity, before, answers, r.len());
}

/// Evicts values last read `GENERATIONS_TO_KEEP` generations ago or earlier
/// once the number of resident values crosses the configured capacity.
///
/// This is not LRU: reads are only published once per id per generation,
/// so hot reads avoid a write to the shared state on every access.
pub struct Volatile {
    capacity: Option<usize>,
    generation: usize,
    reads: SegQueue<(u32, usize)>,
    local_reads: ThreadPolicyReads,
    resident: Vec<Resident>,
}

impl Volatile {
    /// The capacity, or `None` when eviction is disabled.
    pub closed spec fn spec_capacity(&self) -> Option<usize> {
        self.capacity
    }

    /// The current generation.
    pub closed spec fn spec_generation(&self) -> usize {
        self.generation
    }

    /// The reads published since the last eviction pass, oldest first.
    pub closed spec fn pending_reads(&self) -> Seq<(u32, usize)> {
        queued_reads(self.reads)
    }

    /// The reads this thread already published.
    pub closed spec fn local_reads(&self) -> ThreadPolicyReads {
        self.local_reads
    }

    /// The resident values, in the order in which they first received a value.
    pub closed spec fn resident(&self) -> Seq<Resident> {
        self.resident@
    }

    /// Whether a use of `id` publishes a read: the policy is enabled and
    /// `id` was not read yet in the current generation.
    pub open spec fn use_publishes(&self, id: Id) -> bool {
        self.spec_capacity() is Some && self.local_reads().is_new_read(id, self.spec_generation())
    }

    /// The relation between the policy before and after a use of `id`.
    pub open spec fn use_step(old: Volatile, id: Id, new: Volatile) -> bool {
        &&& new.spec_capacity() == old.spec_capacity()
        &&& new.spec_generation() == old.spec_generation()
        &&& new.resident() == old.resident()
        &&& new.pending_reads() == if old.use_publishes(id) {
            old.pending_reads().push((id.spec_index(), old.spec_generation()))
        } else {
            old.pending_reads()
        }
        &&& if old.spec_capacity() is Some {
            &&& new.local_reads().spec_generation() == old.spec_generation()
            &&& new.local_reads().spec_ids() == (if old.local_reads().spec_generation()
                == old.spec_generation() {
                old.local_reads().spec_ids()
            } else {
                Set::<u32>::empty()
            }).insert(id.spec_index())
        } else {
            new.local_reads() == old.local_reads()
        }
    }

    /// The relation between the policy before and after `id` received a
    /// value, and whether that crossed an eviction point.
    pub open spec fn insert_step(old: Volatile, id: Id, new: Volatile, evict: bool) -> bool {
        &&& new.spec_capacity() == old.spec_capacity()
        &&& new.pending_reads() == old.pending_reads()
        &&& new.local_reads() == old.local_reads()
        &&& match old.spec_capacity() {
            None => !evict && new.resident() == old.resident() && new.spec_generation()
                == old.spec_generation(),
            Some(capacity) => {
                &&& new.resident() == insert_resident(old.resident(), id, old.spec_generation())
                &&& evict == (new.resident().len() > capacity)
                &&& new.spec_generation() == if evict {
                    next_generation(old.spec_generation())
                } else {
                    old.spec_generation()
                }
            },
        }
    }

    /// The relation between the policy before and after an eviction pass
    /// in which the callback answered `answers`.
    pub open spec fn evict_step(old: Volatile, answers: Seq<bool>, new: Volatile) -> bool {
        &&& new.spec_capacity() == old.spec_capacity()
        &&& new.spec_generation() == old.spec_generation()
        &&& new.local_reads() == old.local_reads()
        &&& match old.spec_capacity() {
            None => new.resident() == old.resident() && new.pending_reads()
                == old.pending_reads(),
            Some(capacity) => {
                &&& new.pending_reads() == Seq::<(u32, usize)>::empty()
                &&& new.resident() == kept_by_scan(
                    apply_reads(old.resident(), old.pending_reads()),
                    capacity as nat,
                    evict_before(old.spec_generation()),
                    answers,
                )
            },
        }
    }

    /// Returns the current generation.
    fn current_generation(&self) -> (generation: usize)
        ensures
            generation == self.spec_generation(),
    {
        self.generation
    }
}

/// Eviction keeps the distinctness of the resident ids.
proof fn lemma_scan_state_distinct(
    r: Seq<Resident>,
    capacity: nat,
    before: usize,
    answers: Seq<bool>,
    i: nat,
)
    requires
        i <= r.len(),
        distinct_ids(r),
    ensures
        distinct_ids(scan_state(r, capacity, before, answers, i).0),
    decreases i,
{
    if i > 0 {
        let j = (i - 1) as nat;
        lemma_scan_state_distinct(r, capacity, before, answers, j);
        lemma_scan_state_members(r, capacity, before, answers, j);
        let prev = scan_state(r, capacity, before, answers, j);
        let cur = scan_state(r, capacity, before, answers, i);
        if cur.0 != prev.0 {
            assert forall|a: int, b: int|
                0 <= a < cur.0.len() && 0 <= b < cur.0.len() && a != b implies cur.0[a].id
                != cur.0[b].id by {
                if a < prev.0.len() && b < prev.0.len() {
                } else {
                    let w = if a < prev.0.len() {
                        a
                    } else {
                        b
                    };
                    assert(prev.0.contains(prev.0[w]));
                    assert(r.take(j as int).contains(prev.0[w]));
                    let v = choose|v: int|
                        0 <= v < r.take(j as int).len() && r.take(j as int)[v] == prev.0[w];
                    assert(r[v] == prev.0[w]);
                }
            }
        }
    }
}

impl EvictionPolicy for Volatile {
    open spec fn wf(&self) -> bool {
        &&& (self.spec_capacity() matches Some(c) ==> c > 0)
        &&& (self.spec_capacity() is None ==> self.resident().len() == 0)
        &&& distinct_ids(self.resident())
    }

    open spec fn records_use(old: Self, id: Id, new: Self) -> bool {
        Volatile::use_step(old, id, new)
    }

    /// An enabled policy over capacity, once the published reads are
    /// applied, may offer the resident values last read before the
    /// eviction point; a disabled policy, or one within capacity, offers
    /// nothing.
    open spec fn may_offer(&self, id: Id) -> bool {
        match self.spec_capacity() {
            None => false,
            Some(capacity) => {
                let r = apply_reads(self.resident(), self.pending_reads());
                &&& r.len() > capacity
                &&& exists|k: int|
                    0 <= k < r.len() && #[trigger] r[k].id == id && r[k].last_read < evict_before(
                        self.spec_generation(),
                    )
            },
        }
    }

    /// Volatile values may be retired within a revision.
    fn retires_values() -> (r: bool)
        ensures
            r,
    {
        true
    }

    fn new(capacity: usize) -> (policy: Self)
        ensures
            policy.spec_capacity() == (if capacity == 0 {
                None
            } else {
                Some(capacity)
            }),
            policy.spec_generation() == 1,
            policy.pending_reads() == Seq::<(u32, usize)>::empty(),
            policy.resident() == Seq::<Resident>::empty(),
            policy.local_reads().spec_generation() == 0,
            policy.local_reads().spec_ids() == Set::<u32>::empty(),
    {
        Volatile {
            capacity: if capacity == 0 {
                None
            } else {
                Some(capacity)
            },
            generation: 1,
            reads: read_queue_new(),
            local_reads: ThreadPolicyReads::new(),
            resident: Vec::new(),
        }
    }

    fn record_use(&mut self, id: Id)
        ensures
            Volatile::use_step(*old(self), id, *final(self)),
    {
        if self.capacity.is_none() {
            return ;
        }
        let generation = self.current_generation();
        if self.local_reads.note_read(id, generation) {
            read_queue_push(&mut self.reads, (id.index(), generation));
        }
    }

    fn record_insert(&mut self, id: Id) -> (evict: bool)
        ensures
            Volatile::insert_step(*old(self), id, *final(self), evict),
            old(self).spec_capacity() is Some ==> exists|k: int|
                0 <= k < final(self).resident().len() && final(self).resident()[k] == (Resident {
                    id,
                    last_read: old(self).spec_generation(),
                }),
    {
        let capacity = match self.capacity {
            Some(capacity) => capacity,
            None => {
                return false;
            },
        };
        let generation = self.current_generation();
        let ghost before = self.resident@;
        let len = self.resident.len();
        let mut i: usize = 0;
        let mut found = false;
        while i < len
            invariant
                len == self.resident@.len(),
                i <= len,
                distinct_ids(before),
                self.resident@.len() == before.len(),
                self.capacity == old(self).capacity,
                self.generation == old(self).generation,
                self.reads == old(self).reads,
                self.local_reads == old(self).local_reads,
                before == old(self).resident@,
                found ==> is_resident(before, id),
                forall|k: int|
                    0 <= k < len ==> #[trigger] self.resident@[k] == if k < i && before[k].id
                        == id {
                        Resident { id, last_read: generation }
                    } else {
                        before[k]
                    },
                !found ==> forall|k: int| 0 <= k < i ==> before[k].id != id,
            decreases len - i,
        {
            if self.resident[i].id == id {
                self.resident.set(i, Resident { id, last_read: generation });
                found = true;
            }
            i = i + 1;
        }
        if !found {
            assert(!is_resident(before, id));
            self.resident.push(Resident { id, last_read: generation });
            assert(self.resident@ =~= before.push(Resident { id, last_read: generation }));
        } else {
            assert(self.resident@ =~= insert_resident(before, id, generation));
        }
        proof {
            let r = self.resident@;
            assert(r == insert_resident(before, id, generation));
            lemma_insert_resident_facts(before, id, generation);
            assert forall|a: int, b: int|
                0 <= a < r.len() && 0 <= b < r.len() && a != b implies r[a].id != r[b].id by {
                if a < before.len() && b < before.len() {
                    if r[a].id == id {
                        assert(before[a].id == id);
                        assert(before[b].id != id);
                        assert(r[b] == before[b]);
                    } else {
                        assert(r[a] == before[a]);
                        if r[b].id != id {
                            assert(r[b] == before[b]);
                        }
                    }
                } else if a < before.len() {
                    assert(r[b].id == id);
                    assert(before[a].id != id);
                    assert(r[a] == before[a]);
                } else {
                    assert(r[a].id == id);
                    assert(before[b].id != id);
                    assert(r[b] == before[b]);
                }
            }
        }
        if self.resident.len() > capacity {
            self.generation = if self.generation == usize::MAX {
                0
            } else {
                self.generation + 1
            };
            true
        } else {
            false
        }
    }

    fn set_capacity(&mut self, capacity: usize)
        ensures
            final(self).spec_capacity() == (if capacity == 0 {
                None
            } else {
                Some(capacity)
            }),
            final(self).resident() == (if capacity == 0 {
                Seq::<Resident>::empty()
            } else {
                old(self).resident()
            }),
            final(self).spec_generation() == old(self).spec_generation(),
            final(self).pending_reads() == old(self).pending_reads(),
            final(self).local_reads() == old(self).local_reads(),
    {
        self.capacity = if capacity == 0 {
            None
        } else {
            Some(capacity)
        };
        if self.capacity.is_none() {
            self.resident.clear();
        }
    }

    fn for_each_evicted<F: FnMut(Id) -> bool>(&mut self, cb: F)
        ensures
            exists|answers: Seq<bool>|
                {
                    &&& Volatile::evict_step(*old(self), answers, *final(self))
                    &&& old(self).spec_capacity() matches Some(capacity) ==> {
                        let r = apply_reads(old(self).resident(), old(self).pending_reads());
                        forall|k: nat|
                            k < r.len() && scan_asks(
                                r,
                                capacity as nat,
                                evict_before(old(self).spec_generation()),
                                answers,
                                k,
                            ) ==> call_ensures(cb, (r[k as int].id,), answers[k as int])
                    }
                },
    {
        let capacity = match self.capacity {
            Some(capacity) => capacity,
            None => {
                assert(Volatile::evict_step(*old(self), Seq::<bool>::empty(), *self));
                return ;
            },
        };
        let generation = self.current_generation();
        let mut resident: Vec<Resident> = Vec::new();
        std::mem::swap(&mut resident, &mut self.resident);
        let ghost start = resident@;
        let ghost all_reads = queued_reads(self.reads);
        let ghost mut drained: int = 0;
        assert(all_reads.skip(0) == all_reads);
        loop
            invariant
                0 <= drained <= all_reads.len(),
                queued_reads(self.reads) == all_reads.skip(drained),
                apply_reads(start, all_reads) == apply_reads(resident@, all_reads.skip(drained)),
                self.capacity == old(self).capacity,
                self.generation == old(self).generation,
                self.local_reads == old(self).local_reads,
                resident@.len() == start.len(),
                forall|k: int| 0 <= k < start.len() ==> #[trigger] resident@[k].id == start[k].id,
            ensures
                queued_reads(self.reads) == Seq::<(u32, usize)>::empty(),
                apply_reads(start, all_reads) == resident@,
                self.capacity == old(self).capacity,
                self.generation == old(self).generation,
                self.local_reads == old(self).local_reads,
                resident@.len() == start.len(),
                forall|k: int| 0 <= k < start.len() ==> #[trigger] resident@[k].id == start[k].id,
            decreases all_reads.len() - drained,
        {
            match read_queue_pop(&mut self.reads) {
                Some(read) => {
                    let ghost prev = resident@;
                    let ghost rest = all_reads.skip(drained);
                    let len = resident.len();
                    let mut i: usize = 0;
                    while i < len
                        invariant
                            len == resident@.len(),
                            len == prev.len(),
                            i <= len,
                            forall|k: int|
                                0 <= k < len ==> #[trigger] resident@[k] == if k < i {
                                    apply_read(prev, read)[k]
                                } else {
                                    prev[k]
                                },
                        decreases len - i,
                    {
                        let entry = resident[i];
                        if entry.id.index() == read.0 && entry.last_read < read.1 {
                            resident.set(i, Resident { id: entry.id, last_read: read.1 });
                        }
                        i = i + 1;
                    }
                    proof {
                        assert(resident@ =~= apply_read(prev, read));
                        assert(rest[0] == read);
                        assert(rest.drop_first() =~= all_reads.skip(drained + 1));
                        assert(apply_reads(prev, rest) == apply_reads(
                            apply_read(prev, rest[0]),
                            rest.drop_first(),
                        ));
                        drained = drained + 1;
                    }
                },
                None => {
                    assert(all_reads.skip(drained) =~= Seq::<(u32, usize)>::empty());
                    break ;
                },
            }
        }
        let ghost applied = resident@;
        proof {
            assert forall|a: int, b: int|
                0 <= a < applied.len() && 0 <= b < applied.len() && a != b implies applied[a].id
                != applied[b].id by {
                assert(applied[a].id == start[a].id);
                assert(applied[b].id == start[b].id);
            }
        }
        let before = if generation >= GENERATIONS_TO_KEEP {
            generation - GENERATIONS_TO_KEEP
        } else {
            0
        };
        let mut len = resident.len();
        if len <= capacity {
            self.resident = resident;
            proof {
                let answers = Seq::<bool>::empty();
                lemma_scan_state_keeps_all(applied, capacity as nat, before, answers, applied.len());
                assert(applied.take(applied.len() as int) =~= applied);
                assert forall|k: nat|
                    k < applied.len() implies !scan_asks(applied, capacity as nat, before, answers, k) by {
                    lemma_scan_state_keeps_all(applied, capacity as nat, before, answers, k);
                }
                assert(Volatile::evict_step(*old(self), answers, *self));
            }
            return ;
        }
        let mut retained: Vec<Resident> = Vec::new();
        let ghost mut answers = Seq::<bool>::empty();
        let ghost cb_at_entry = cb;
        let mut cb = cb;
        let n = resident.len();
        let mut i: usize = 0;
        while i < n
            invariant
                n == resident@.len(),
                resident@ == applied,
                i <= n,
                answers.len() == i,
                (retained@, len as nat) == scan_state(applied, capacity as nat, before, answers, i as nat),
                forall|k: nat|
                    k < i && scan_asks(applied, capacity as nat, before, answers, k)
                        ==> call_ensures(cb, (applied[k as int].id,), answers[k as int]),
                forall|id: Id| old(self).may_offer(id) ==> call_requires(cb, (id,)),
                old(self).spec_capacity() == Some(capacity),
                applied == apply_reads(old(self).resident(), old(self).pending_reads()),
                applied.len() > capacity,
                before == evict_before(old(self).spec_generation()),
                cb == cb_at_entry,
            decreases n - i,
        {
            let entry = resident[i];
            proof {
                lemma_scan_state_counts(applied, capacity as nat, before, answers, i as nat);
            }
            let mut answer = false;
            if len > capacity && entry.last_read < before {
                assert(old(self).may_offer(entry.id)) by {
                    assert(applied[i as int].id == entry.id);
                }
                answer = cb(entry.id);
            }
            proof {
                let old_answers = answers;
                answers = answers.push(answer);
                assert forall|k: nat| k <= i implies scan_state(applied, capacity as nat, before, answers, k)
                    == scan_state(applied, capacity as nat, before, old_answers, k) by {
                    lemma_scan_state_prefix(applied, capacity as nat, before, answers, old_answers, k);
                }
                assert forall|k: nat|
                    k < i + 1 && scan_asks(applied, capacity as nat, before, answers, k)
                        implies call_ensures(cb, (applied[k as int].id,), answers[k as int]) by {
                    if k < i {
                        assert(scan_asks(applied, capacity as nat, before, old_answers, k));
                        assert(answers[k as int] == old_answers[k as int]);
                    } else {
                        assert(scan_state(applied, capacity as nat, before, answers, k).1 == len);
                        assert(applied[k as int] == entry);
                    }
                }
            }
            if len > capacity && entry.last_read < before && answer {
                len = len - 1;
            } else {
                retained.push(entry);
            }
            i = i + 1;
        }
        self.resident = retained;
        proof {
            lemma_scan_state_distinct(applied, capacity as nat, before, answers, n as nat);
            assert(Volatile::evict_step(*old(self), answers, *self));
        }
    }
}

/// A scan that starts within capacity keeps every value.
proof fn lemma_scan_state_keeps_all(
    r: Seq<Resident>,
    capacity: nat,
    before: usize,
    answers: Seq<bool>,
    i: nat,
)
    requires
        i <= r.len(),
        r.len() <= capacity,
    ensures
        scan_state(r, capacity, before, answers, i) == (r.take(i as int), r.len()),
    decreases i,
{
    if i > 0 {
        lemma_scan_state_keeps_all(r, capacity, before, answers, (i - 1) as nat);
        assert(r.take(i as int) == r.take((i - 1) as int).push(r[i - 1]));
    } else {
        assert(r.take(0) == Seq::<Resident>::empty());
    }
}

impl HasCapacity for Volatile {}

/// An eviction pass offers only values of an enabled policy that is over
/// capacity once its published reads are applied, each one resident and
/// last read before the eviction point; a disabled policy, or one within
/// capacity, never calls its callback.
pub proof fn lemma_offers_only_old_values_over_capacity(p: Volatile, id: Id)
    requires
        p.may_offer(id),
    ensures
        p.spec_capacity() is Some,
        apply_reads(p.resident(), p.pending_reads()).len() > p.spec_capacity().unwrap(),
        exists|k: int|
            0 <= k < apply_reads(p.resident(), p.pending_reads()).len() && #[trigger] apply_reads(
                p.resident(),
                p.pending_reads(),
            )[k].id == id && apply_reads(p.resident(), p.pending_reads())[k].last_read
                < evict_before(p.spec_generation()),
{
}

/// An insertion into an enabled policy makes the inserted value resident,
/// marked as read in the generation current at the insert, whether or not
/// it was resident before; every other resident value stays as it was, and
/// nothing else becomes resident.
pub proof fn lemma_insert_marks_value_read_now(a: Volatile, id: Id, b: Volatile, evict: bool)
    requires
        a.spec_capacity() is Some,
        Volatile::insert_step(a, id, b, evict),
    ensures
        exists|k: int|
            0 <= k < b.resident().len() && b.resident()[k] == (Resident {
                id,
                last_read: a.spec_generation(),
            }),
        forall|x: Resident| #[trigger]
            a.resident().contains(x) && x.id != id ==> b.resident().contains(x),
        forall|x: Resident| #[trigger]
            b.resident().contains(x) ==> x.id == id || a.resident().contains(x),
{
    lemma_insert_resident_facts(a.resident(), id, a.spec_generation());
}

proof fn lemma_insert_resident_facts(r: Seq<Resident>, id: Id, generation: usize)
    ensures
        exists|k: int|
            0 <= k < insert_resident(r, id, generation).len() && insert_resident(
                r,
                id,
                generation,
            )[k] == (Resident { id, last_read: generation }),
        forall|x: Resident| #[trigger]
            r.contains(x) && x.id != id ==> insert_resident(r, id, generation).contains(x),
        forall|x: Resident| #[trigger]
            insert_resident(r, id, generation).contains(x) ==> x.id == id || r.contains(x),
{
    let n = insert_resident(r, id, generation);
    if is_resident(r, id) {
        let k = choose|k: int| 0 <= k < r.len() && r[k].id == id;
        assert(n[k] == Resident { id, last_read: generation });
        assert forall|x: Resident| r.contains(x) && x.id != id implies n.contains(x) by {
            let j = choose|j: int| 0 <= j < r.len() && r[j] == x;
            assert(n[j] == x);
        }
        assert forall|x: Resident| n.contains(x) implies x.id == id || r.contains(x) by {
            let j = choose|j: int| 0 <= j < n.len() && n[j] == x;
            if r[j].id != id {
                assert(r[j] == x);
            }
        }
    } else {
        assert(n[r.len() as int] == Resident { id, last_read: generation });
        assert forall|x: Resident| r.contains(x) && x.id != id implies n.contains(x) by {
            let j = choose|j: int| 0 <= j < r.len() && r[j] == x;
            assert(n[j] == x);
        }
        assert forall|x: Resident| n.contains(x) implies x.id == id || r.contains(x) by {
            let j = choose|j: int| 0 <= j < n.len() && n[j] == x;
            if j < r.len() {
                assert(r[j] == x);
            }
        }
    }
}

/// A read is published at most once per id and generation: a second use
/// of the same id, with no eviction point in between, publishes nothing.
pub proof fn lemma_repeated_use_publishes_once(a: Volatile, b: Volatile, c: Volatile, id: Id)
    requires
        Volatile::use_step(a, id, b),
        Volatile::use_step(b, id, c),
    ensures
        c.pending_reads() == b.pending_reads(),
{
}

/// A disabled policy never evicts: it neither reports eviction points nor
/// drops resident values.
pub proof fn lemma_disabled_policy_keeps_values(
    a: Volatile,
    id: Id,
    b: Volatile,
    evict: bool,
    answers: Seq<bool>,
    c: Volatile,
)
    requires
        a.spec_capacity() is None,
        Volatile::insert_step(a, id, b, evict),
        Volatile::evict_step(a, answers, c),
    ensures
        !evict,
        b.resident() == a.resident(),
        c.resident() == a.resident(),
{
}

/// An insertion reports an eviction point exactly when the resident values
/// exceed the capacity, and then starts a new generation.
pub proof fn lemma_eviction_point_starts_generation(a: Volatile, id: Id, b: Volatile, evict: bool)
    requires
        a.spec_capacity() is Some,
        Volatile::insert_step(a, id, b, evict),
    ensures
        evict <==> b.resident().len() > a.spec_capacity().unwrap(),
        evict ==> b.spec_generation() == next_generation(a.spec_generation()),
        !evict ==> b.spec_generation() == a.spec_generation(),
{
}

} // verus!
