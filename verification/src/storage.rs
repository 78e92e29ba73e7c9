//! The state a database owns: the current revision, the registered jars of
//! ingredients, and the dependencies the active query has read.
use vstd::prelude::*;

use crate::id::{DatabaseKeyIndex, Durability, IngredientIndex};

verus! {

broadcast use crate::id::group_id_facts;

/// A registered jar: a run of consecutive ingredients, identified by the
/// key of the declaration that created it.
#[derive(Clone, Copy, PartialEq, Eq, Structural, Debug)]
pub struct JarEntry {
    pub key: u64,
    pub first: IngredientIndex,
    pub count: u32,
}

/// A dependency recorded for the active query: the key read, how durable
/// it is, and the revision in which it last changed.
#[derive(Clone, Copy, PartialEq, Eq, Structural, Debug)]
pub struct TrackedRead {
    pub key: DatabaseKeyIndex,
    pub durability: Durability,
    pub changed_at: u64,
}

/// Whether `key` names one of the jars.
pub open spec fn has_jar(jars: Seq<JarEntry>, key: u64) -> bool {
    exists|i: int| 0 <= i < jars.len() && jars[i].key == key
}

/// Whether two jars occupy disjoint runs of ingredient indices.
pub open spec fn jars_disjoint(a: JarEntry, b: JarEntry) -> bool {
    a.first.spec_index() + a.count <= b.first.spec_index() || b.first.spec_index() + b.count
        <= a.first.spec_index()
}

/// Whether the jars have distinct keys and occupy disjoint runs of
/// ingredient indices below `next`.
pub open spec fn jars_wf(jars: Seq<JarEntry>, next: u32) -> bool {
    &&& forall|i: int, j: int|
        0 <= i < jars.len() && 0 <= j < jars.len() && i != j ==> jars[i].key != jars[j].key
    &&& forall|i: int|
        0 <= i < jars.len() ==> #[trigger] jars[i].first.spec_index() + jars[i].count <= next
    &&& forall|i: int, j: int|
        0 <= i < jars.len() && 0 <= j < jars.len() && i != j ==> jars_disjoint(
            #[trigger] jars[i],
            #[trigger] jars[j],
        )
}

/// The jars after registering `count` ingredients under `key`: a key that is
/// already registered keeps its jar, a new key gets the next indices.
pub open spec fn register_jar(jars: Seq<JarEntry>, next: u32, key: u64, count: u32) -> Seq<
    JarEntry,
> {
    if has_jar(jars, key) {
        jars
    } else {
        jars.push(JarEntry { key, first: IngredientIndex::spec_new(next), count })
    }
}

/// Registering a new key places its jar at the next free ingredient index,
/// after every jar registered before it, so that its run of indices
/// overlaps none of theirs; registering a known key changes nothing.
pub proof fn lemma_new_jar_takes_fresh_indices(jars: Seq<JarEntry>, next: u32, key: u64, count: u32)
    requires
        jars_wf(jars, next),
    ensures
        has_jar(jars, key) ==> register_jar(jars, next, key, count) == jars,
        !has_jar(jars, key) ==> {
            let after = register_jar(jars, next, key, count);
            &&& after.len() == jars.len() + 1
            &&& after.last().key == key
            &&& after.last().count == count
            &&& after.last().first.spec_index() == next
            &&& forall|i: int|
                0 <= i < jars.len() ==> #[trigger] after[i] == jars[i] && jars_disjoint(
                    jars[i],
                    after.last(),
                )
        },
{
}

/// A handle type whose jar of ingredients can be registered with a database.
pub trait HasJar {
    /// The key of the declaration that owns the jar.
    spec fn spec_jar_key() -> u64;

    /// How many consecutive ingredients the jar holds.
    spec fn spec_jar_ingredients() -> u32;

    fn jar_key() -> (key: u64)
        ensures
            key == Self::spec_jar_key(),
    ;

    fn jar_ingredients() -> (count: u32)
        ensures
            count == Self::spec_jar_ingredients(),
    ;
}

/// Collects the jars of a database before it is built.
pub struct StorageBuilder {
    jars: Vec<JarEntry>,
    next_index: u32,
}

impl StorageBuilder {
    /// The jars registered so far, in registration order.
    pub closed spec fn spec_jars(&self) -> Seq<JarEntry> {
        self.jars@
    }

    /// The index the next registered ingredient receives.
    pub closed spec fn spec_next_index(&self) -> u32 {
        self.next_index
    }

    pub closed spec fn wf(&self) -> bool {
        jars_wf(self.jars@, self.next_index)
    }

    /// A builder with no jars.
    pub fn new() -> (b: StorageBuilder)
        ensures
            b.wf(),
            b.spec_jars() == Seq::<JarEntry>::empty(),
            b.spec_next_index() == 0,
    {
        StorageBuilder { jars: Vec::new(), next_index: 0 }
    }

    /// Registers a jar of `count` ingredients under `key`, once.
    pub fn jar(self, key: u64, count: u32) -> (b: StorageBuilder)
        requires
            self.wf(),
            self.spec_next_index() + count <= u32::MAX,
        ensures
            b.wf(),
            b.spec_jars() == register_jar(self.spec_jars(), self.spec_next_index(), key, count),
            b.spec_next_index() == if has_jar(self.spec_jars(), key) {
                self.spec_next_index() as int
            } else {
                self.spec_next_index() + count
            },
            !has_jar(self.spec_jars(), key) ==> b.spec_jars().last() == (JarEntry {
                key,
                first: IngredientIndex::spec_new(self.spec_next_index()),
                count,
            }),
            forall|i: int, j: int|
                0 <= i < b.spec_jars().len() && 0 <= j < b.spec_jars().len() && i != j
                    ==> jars_disjoint(#[trigger] b.spec_jars()[i], #[trigger] b.spec_jars()[j]),
    {
        let mut b = self;
        let n = b.jars.len();
        let mut i: usize = 0;
        while i < n
            invariant
                n == b.jars@.len(),
                i <= n,
                b.jars@ == self.jars@,
                b.next_index == self.next_index,
                jars_wf(self.jars@, self.next_index),
                forall|k: int| 0 <= k < i ==> b.jars@[k].key != key,
            decreases n - i,
        {
            if b.jars[i].key == key {
                return b;
            }
            i = i + 1;
        }
        let first = IngredientIndex::from_index(b.next_index);
        b.jars.push(JarEntry { key, first, count });
        b.next_index = b.next_index + count;
        proof {
            let jars = b.jars@;
            assert forall|x: int, y: int|
                0 <= x < jars.len() && 0 <= y < jars.len() && x != y implies jars[x].key
                != jars[y].key by {
                if x < n && y < n {
                    assert(jars[x] == self.jars@[x]);
                    assert(jars[y] == self.jars@[y]);
                }
            }
            assert forall|x: int| 0 <= x < jars.len() implies #[trigger] jars[x].first.spec_index()
                + jars[x].count <= b.next_index by {
                if x < n {
                    assert(jars[x] == self.jars@[x]);
                }
            }
            assert forall|x: int, y: int|
                0 <= x < jars.len() && 0 <= y < jars.len() && x != y implies jars_disjoint(
                #[trigger] jars[x],
                #[trigger] jars[y],
            ) by {
                if x < n && y < n {
                    assert(jars[x] == self.jars@[x]);
                    assert(jars[y] == self.jars@[y]);
                } else if x < n {
                    assert(jars[x] == self.jars@[x]);
                    assert(self.jars@[x].first.spec_index() + self.jars@[x].count <= self.next_index);
                } else {
                    assert(jars[y] == self.jars@[y]);
                    assert(self.jars@[y].first.spec_index() + self.jars@[y].count <= self.next_index);
                }
            }
        }
        b
    }

    /// Builds the storage: revision one, the registered jars, no reads.
    pub fn build(self) -> (s: Storage)
        requires
            self.wf(),
        ensures
            s.wf(),
            s.spec_revision() == 1,
            s.spec_jars() == self.spec_jars(),
            s.spec_reads() == Seq::<TrackedRead>::empty(),
    {
        Storage { revision: 1, jars: self.jars, next_index: self.next_index, reads: Vec::new() }
    }
}

/// The state of a database.
pub struct Storage {
    revision: u64,
    jars: Vec<JarEntry>,
    next_index: u32,
    reads: Vec<TrackedRead>,
}

impl Storage {
    /// The current revision.
    pub closed spec fn spec_revision(&self) -> u64 {
        self.revision
    }

    /// The registered jars, in registration order.
    pub closed spec fn spec_jars(&self) -> Seq<JarEntry> {
        self.jars@
    }

    /// The dependencies recorded by the active query, oldest first.
    pub closed spec fn spec_reads(&self) -> Seq<TrackedRead> {
        self.reads@
    }

    pub closed spec fn wf(&self) -> bool {
        &&& jars_wf(self.jars@, self.next_index)
        &&& self.revision >= 1
    }

    /// Whether another revision can still be started.
    pub open spec fn can_advance(&self) -> bool {
        self.spec_revision() < u64::MAX
    }

    /// Returns the current revision.
    pub fn current_revision(&self) -> (r: u64)
        ensures
            r == self.spec_revision(),
    {
        self.revision
    }

    /// Starts a new revision: the only way the revision moves.
    pub fn new_revision(&mut self)
        requires
            old(self).wf(),
            old(self).can_advance(),
        ensures
            final(self).wf(),
            final(self).spec_revision() == old(self).spec_revision() + 1,
            final(self).spec_jars() == old(self).spec_jars(),
            final(self).spec_reads() == old(self).spec_reads(),
    {
        self.revision = self.revision + 1;
    }

    /// Looks up the jar registered under `key`.
    pub fn lookup_jar(&self, key: u64) -> (jar: Option<JarEntry>)
        requires
            self.wf(),
        ensures
            jar is Some <==> has_jar(self.spec_jars(), key),
            jar matches Some(e) ==> e.key == key && self.spec_jars().contains(e),
            jar matches Some(e) ==> e.first.spec_index() + e.count <= u32::MAX,
            jar matches Some(e) ==> forall|x: JarEntry|
                #![trigger self.spec_jars().contains(x)]
                self.spec_jars().contains(x) && x.key == key ==> x == e,
    {
        let n = self.jars.len();
        let mut i: usize = 0;
        while i < n
            invariant
                n == self.jars@.len(),
                i <= n,
                jars_wf(self.jars@, self.next_index),
                forall|k: int| 0 <= k < i ==> self.jars@[k].key != key,
            decreases n - i,
        {
            if self.jars[i].key == key {
                let e = self.jars[i];
                assert(self.jars@[i as int] == e);
                assert(e.first.spec_index() + e.count <= self.next_index);
                assert forall|x: JarEntry|
                    #![trigger self.spec_jars().contains(x)]
                    self.spec_jars().contains(x) && x.key == key implies x == e by {
                    let a = choose|a: int| 0 <= a < self.jars@.len() && self.jars@[a] == x;
                    assert(a == i);
                }
                return Some(e);
            }
            i = i + 1;
        }
        None
    }

    /// Jars registered under different keys occupy disjoint runs of
    /// ingredient indices: no two handles resolve to the same ingredient.
    pub proof fn lemma_registered_jars_disjoint(&self, a: JarEntry, b: JarEntry)
        requires
            self.wf(),
            self.spec_jars().contains(a),
            self.spec_jars().contains(b),
            a.key != b.key,
        ensures
            jars_disjoint(a, b),
    {
        let i = choose|i: int| 0 <= i < self.spec_jars().len() && self.spec_jars()[i] == a;
        let j = choose|j: int| 0 <= j < self.spec_jars().len() && self.spec_jars()[j] == b;
        assert(jars_disjoint(self.jars@[i], self.jars@[j]));
    }

    /// Records that the active query read `key`.
    pub fn report_tracked_read(&mut self, key: DatabaseKeyIndex, durability: Durability, changed_at: u64)
        requires
            old(self).wf(),
        ensures
            final(self).wf(),
            final(self).spec_reads() == old(self).spec_reads().push(
                TrackedRead { key, durability, changed_at },
            ),
            final(self).spec_revision() == old(self).spec_revision(),
            final(self).spec_jars() == old(self).spec_jars(),
    {
        self.reads.push(TrackedRead { key, durability, changed_at });
    }

    /// Returns the dependencies recorded by the active query.
    pub fn reads(&self) -> (r: &Vec<TrackedRead>)
        ensures
            r@ == self.spec_reads(),
    {
        &self.reads
    }
}

} // verus!
