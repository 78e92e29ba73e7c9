//! Generic, macro-free Salsa struct handles and the ingredients that store
//! their data.
//!
//! Each kind of data lives in an ingredient of its own: tracked data in a
//! [`TrackedIngredient`], interned data in an [`InternedIngredient`], and
//! inputs and input fields in an [`InputIngredient`]. A handle is the id of
//! one value in its ingredient.
use vstd::prelude::*;

use std::hash::{Hash, Hasher};
use std::marker::PhantomData;
use vstd::std_specs::cmp::{PartialEqSpec, PartialEqSpecImpl};

use crate::database_impl::DatabaseImpl;
use crate::debug_name::{last_path_component, spec_last_path_component};
use crate::id::{AsId, DatabaseKeyIndex, Durability, FromId, Id, IngredientIndex};
use crate::storage::{HasJar, JarEntry, Storage, TrackedRead};
use crate::struct_id::{InternedStructRepr, Struct};
use crate::update::Update;

verus! {

broadcast use crate::id::group_id_facts;

/// Data that can be stored in an ingredient.
///
/// Without heap accounting, no stored value reports a heap size.
pub trait StoredData {
    fn heap_size(&self) -> (size: Option<usize>);
}

impl<T> StoredData for T {
    fn heap_size(&self) -> (size: Option<usize>)
        ensures
            size is None,
    {
        None
    }
}

/// Declares data stored behind a generic [`TrackedHandle`] handle.
///
/// Direct [`TrackedField`] members receive independent dependency
/// revisions: tracked field `k` of the value with id `id` in the ingredient
/// at index `i` is the projection `(i + 1 + k, id)`.
pub trait TrackedData: Sized {
    /// The key of the declaration, which names its jar.
    const INGREDIENT_KEY: u64;

    /// The fully qualified path of the data type.
    const TYPE_PATH: &'static str;

    /// The names of the direct tracked fields, in declaration order.
    const TRACKED_FIELD_NAMES: &'static [&'static str];

    /// The projection tracked field `field` is bound to, if any.
    spec fn projection(&self, field: u32) -> Option<DatabaseKeyIndex>;

    /// The data with every tracked field's projection cleared: what
    /// binding leaves as it was.
    spec fn unbound(self) -> Self;

    /// Binds every tracked field to its projection of the value `id` in
    /// the ingredient at `ingredient_index`, changing nothing else.
    fn bind_tracked_fields(ingredient_index: IngredientIndex, id: Id, fields: &mut Self)
        requires
            ingredient_index.spec_index() + Self::TRACKED_FIELD_NAMES@.len() <= u32::MAX,
        ensures
            forall|k: u32|
                k < Self::TRACKED_FIELD_NAMES@.len() ==> #[trigger] final(fields).projection(k)
                    == Some(field_projection(ingredient_index, id, k as nat)),
            final(fields).unbound() == old(fields).unbound(),
    ;

    /// Whether tracked field `field` holds different values in `self` and
    /// `other`.
    spec fn tracked_field_differs(&self, other: &Self, field: u32) -> bool;

    /// Whether some field that is not a tracked field holds different
    /// values in `self` and `other`.
    spec fn untracked_fields_differ(&self, other: &Self) -> bool;

    /// Updates the stored data `current` to `new_fields` field by field,
    /// each with its own update rule: afterwards it holds the new data,
    /// with the tracked fields keeping their projections. Returns, for each
    /// tracked field in order, whether it changed, and whether any other
    /// field changed; a field whose value differs always counts as
    /// changed, and a field whose rule always updates counts as changed
    /// even when its value is the same.
    fn update_fields(current: &mut Self, new_fields: Self) -> (changed: (Vec<bool>, bool))
        ensures
            final(current).unbound() == new_fields.unbound(),
            forall|k: u32| #[trigger] final(current).projection(k) == old(current).projection(k),
            changed.0@.len() == Self::TRACKED_FIELD_NAMES@.len(),
            forall|k: u32|
                k < Self::TRACKED_FIELD_NAMES@.len() && #[trigger] old(current).tracked_field_differs(
                    &new_fields,
                    k,
                ) ==> changed.0@[k as int],
            old(current).untracked_fields_differ(&new_fields) ==> changed.1,
    ;
}

/// The number of direct tracked fields of `T`.
pub open spec fn tracked_field_count<T: TrackedData>() -> nat {
    T::TRACKED_FIELD_NAMES@.len()
}

/// Declares data stored behind a generic [`Interned`] handle.
pub trait InternedData: Sized {
    /// The key of the declaration, which names its jar.
    const INGREDIENT_KEY: u64;

    /// The fully qualified path of the data type.
    const TYPE_PATH: &'static str;

    /// Whether two values are the same interned key.
    fn same_data(&self, other: &Self) -> (same: bool)
        ensures
            same == (*self == *other),
    ;

    /// An owned copy of a borrowed key.
    fn to_owned_data(&self) -> (owned: Self)
        ensures
            owned == *self,
    ;
}

/// A key by which data of type `T` is interned: it can be compared with
/// interned data, and converted into owned data when interning misses.
pub trait Lookup<T>: Sized {
    /// The owned data this key stands for.
    spec fn spec_lookup_data(&self) -> T;

    /// Whether `data` is the data this key stands for.
    fn lookup_eq(&self, data: &T) -> (same: bool)
        ensures
            same == (*data == self.spec_lookup_data()),
    ;

    /// Converts the key into the owned data it stands for.
    fn into_owned(self) -> (owned: T)
        ensures
            owned == self.spec_lookup_data(),
    ;
}

/// A borrowed key by which data of type `T` is interned: it can be
/// compared with interned data, and copied into owned data when interning
/// misses.
pub trait BorrowedLookup<T> {
    /// The owned data this key stands for.
    spec fn spec_borrowed_data(&self) -> T;

    /// Whether `data` is the data this key stands for.
    fn borrowed_eq(&self, data: &T) -> (same: bool)
        ensures
            same == (*data == self.spec_borrowed_data()),
    ;

    /// An owned copy of the data this key stands for.
    fn to_owned_data(&self) -> (owned: T)
        ensures
            owned == self.spec_borrowed_data(),
    ;
}

impl<T: InternedData> Lookup<T> for T {
    /// Interned data is its own key.
    open spec fn spec_lookup_data(&self) -> T {
        *self
    }

    fn lookup_eq(&self, data: &T) -> (same: bool) {
        data.same_data(self)
    }

    fn into_owned(self) -> (owned: T) {
        self
    }
}

impl<T: InternedData> BorrowedLookup<T> for T {
    /// Borrowed interned data is its own key.
    open spec fn spec_borrowed_data(&self) -> T {
        *self
    }

    fn borrowed_eq(&self, data: &T) -> (same: bool) {
        data.same_data(self)
    }

    fn to_owned_data(&self) -> (owned: T) {
        InternedData::to_owned_data(self)
    }
}

/// Declares data stored behind a generic [`Input`] handle.
pub trait InputData: Sized {
    /// The key of the declaration, which names its jar.
    const INGREDIENT_KEY: u64;

    /// The fully qualified path of the data type.
    const TYPE_PATH: &'static str;
}

/// Declares a value type stored behind [`InputField`] handles; all input
/// fields of that type share one ingredient.
pub trait FieldData: Sized {
    /// The key of the declaration, which names its jar.
    const INGREDIENT_KEY: u64;

    /// The fully qualified path of the value type.
    const TYPE_PATH: &'static str;
}

/// Connects tracked data to its nominal Salsa struct: the type that
/// [`TrackedHandle::new`] returns.
pub trait TrackedDataConfig: TrackedData {
    type Struct: FromId;
}

/// Connects interned data to its nominal Salsa struct: the type that
/// [`Interned::new`] returns.
pub trait InternedDataConfig: InternedData {
    type Struct: FromId;
}

/// Connects input data to its nominal Salsa struct: the type that
/// [`Input::new`] returns.
pub trait InputDataConfig: InputData {
    type Struct: FromId;
}

/// The projection of tracked field `field` of value `id` in the ingredient
/// at `ingredient_index`.
pub open spec fn field_projection(ingredient_index: IngredientIndex, id: Id, field: nat) -> DatabaseKeyIndex {
    DatabaseKeyIndex::spec_new(
        IngredientIndex::spec_new((ingredient_index.spec_index() + 1 + field) as u32),
        id,
    )
}

/// The message reported when a generic ingredient is used without having
/// been registered.
pub open spec fn missing_message(kind: Seq<char>, name: Seq<char>, declaration: Seq<char>) -> Seq<
    char,
> {
    "Salsa "@ + kind + " data `"@ + name + "` is not registered in this database. Declare "@
        + declaration
        + " and enable inventory, or register its handle with the database builder. A declaration for a different Salsa struct kind does not apply."@
}

/// Builds the message reported when a generic ingredient of `kind` for the
/// data named `name` is used without registration; `declaration` says what
/// registers it.
pub fn generic_ingredient_missing(kind: &str, name: &str, declaration: &str) -> (message: String)
    ensures
        message@ == missing_message(kind@, name@, declaration@),
{
    let mut message = String::from_str("Salsa ");
    message.append(kind);
    message.append(" data `");
    message.append(name);
    message.append("` is not registered in this database. Declare ");
    message.append(declaration);
    message.append(
        " and enable inventory, or register its handle with the database builder. A declaration for a different Salsa struct kind does not apply.",
    );
    message
}

/// Looks up the first ingredient of the jar registered under `key`, which
/// must hold at least `needed` ingredients; reports a missing registration
/// with the message for `kind`, `name` and `declaration` otherwise.
pub fn lookup_generic_ingredient(
    storage: &Storage,
    key: u64,
    needed: u32,
    kind: &str,
    name: &str,
    declaration: &str,
) -> (index: Result<IngredientIndex, String>)
    requires
        storage.wf(),
    ensures
        index is Ok <==> exists|e: JarEntry|
            #![trigger storage.spec_jars().contains(e)]
            storage.spec_jars().contains(e) && e.key == key && e.count >= needed,
        index matches Ok(i) ==> exists|e: JarEntry|
            #![trigger storage.spec_jars().contains(e)]
            storage.spec_jars().contains(e) && e.key == key && e.first == i && e.count >= needed,
        index matches Ok(i) ==> i.spec_index() + needed <= u32::MAX,
        index matches Err(m) ==> m@ == missing_message(kind@, name@, declaration@),
{
    match storage.lookup_jar(key) {
        Some(e) => {
            if e.count >= needed {
                Ok(e.first)
            } else {
                Err(generic_ingredient_missing(kind, name, declaration))
            }
        },
        None => {
            proof {
                assert forall|x: JarEntry|
                    storage.spec_jars().contains(x) implies x.key != key by {
                    let a = choose|a: int|
                        0 <= a < storage.spec_jars().len() && storage.spec_jars()[a] == x;
                }
            }
            Err(generic_ingredient_missing(kind, name, declaration))
        },
    }
}

/// Whether `storage` holds a jar registered under `key` with at least
/// `needed` ingredients.
pub open spec fn jar_registered(storage: Storage, key: u64, needed: nat) -> bool {
    exists|e: JarEntry|
        #![trigger storage.spec_jars().contains(e)]
        storage.spec_jars().contains(e) && e.key == key && e.count >= needed
}

/// The keys of the first `n` values of the ingredient at `index`, in id order.
pub open spec fn keys_of(index: IngredientIndex, n: nat) -> Seq<DatabaseKeyIndex> {
    Seq::new(n, |i: int| DatabaseKeyIndex::spec_new(index, Id::spec_new(i as u32)))
}

/// Lists the keys of the first `n` values of the ingredient at `index`.
fn key_entries(index: IngredientIndex, n: usize) -> (keys: Vec<DatabaseKeyIndex>)
    requires
        n <= u32::MAX,
    ensures
        keys@ == keys_of(index, n as nat),
{
    let mut keys: Vec<DatabaseKeyIndex> = Vec::new();
    let mut i: usize = 0;
    while i < n
        invariant
            i <= n,
            n <= u32::MAX,
            keys@ == keys_of(index, i as nat),
        decreases n - i,
    {
        keys.push(DatabaseKeyIndex::new(index, Id::from_index(i as u32)));
        i = i + 1;
        assert(keys@ =~= keys_of(index, i as nat));
    }
    keys
}

// ---------------------------------------------------------------------------
// Tracked data
// ---------------------------------------------------------------------------

/// The ingredient that stores tracked data.
pub struct TrackedIngredient<T> {
    index: IngredientIndex,
    field_count: u32,
    values: Vec<T>,
    created_at: Vec<u64>,
    field_revisions: Vec<Vec<u64>>,
}

/// The revision stamps of a new value: every tracked field starts in the
/// revision in which the value is created.
pub open spec fn fresh_revisions(count: nat, revision: u64) -> Seq<u64> {
    Seq::new(count, |k: int| revision)
}

/// The stamps of the tracked fields after an update in `revision` that
/// reported `changed`: a field that changed is stamped with `revision`,
/// every other field keeps its stamp.
pub open spec fn updated_revisions(old: Seq<u64>, changed: Seq<bool>, revision: u64) -> Seq<u64> {
    Seq::new(old.len(), |k: int| if changed[k] { revision } else { old[k] })
}

impl<T: TrackedData> TrackedIngredient<T> {
    pub closed spec fn spec_index(&self) -> IngredientIndex {
        self.index
    }

    pub closed spec fn spec_values(&self) -> Seq<T> {
        self.values@
    }

    /// The revision in which each value was created.
    pub closed spec fn spec_created_at(&self) -> Seq<u64> {
        self.created_at@
    }

    /// For each value, the revision in which each of its tracked fields
    /// last changed.
    pub closed spec fn spec_field_revisions(&self) -> Seq<Seq<u64>> {
        Seq::new(self.field_revisions@.len(), |i: int| self.field_revisions@[i]@)
    }

    /// Whether the ingredient knows how many tracked fields the data has.
    pub closed spec fn counts_fields(&self) -> bool {
        self.field_count == tracked_field_count::<T>()
    }

    /// Every value has a creation stamp and one stamp per tracked field,
    /// and the projections of the tracked fields fit in 32 bits.
    pub open spec fn wf(&self) -> bool {
        &&& self.counts_fields()
        &&& self.spec_values().len() == self.spec_created_at().len()
        &&& self.spec_values().len() == self.spec_field_revisions().len()
        &&& forall|i: int|
            0 <= i < self.spec_field_revisions().len() ==> #[trigger] self.spec_field_revisions()[i].len()
                == tracked_field_count::<T>()
        &&& self.spec_values().len() <= u32::MAX
        &&& self.spec_index().spec_index() + tracked_field_count::<T>() <= u32::MAX
    }

    /// Whether `id` names a value of this ingredient.
    pub open spec fn contains_id(&self, id: Id) -> bool {
        id.spec_index() < self.spec_values().len()
    }

    /// Whether `key` is the projection of a tracked field of a value of
    /// this ingredient.
    pub open spec fn owns_projection(&self, key: DatabaseKeyIndex) -> bool {
        &&& self.spec_index().spec_index() < key.spec_ingredient_index().spec_index()
        &&& key.spec_ingredient_index().spec_index() <= self.spec_index().spec_index()
            + tracked_field_count::<T>()
        &&& self.contains_id(key.spec_key_index())
    }

    /// The position of the tracked field whose projection is `key`.
    pub open spec fn field_of(&self, key: DatabaseKeyIndex) -> int {
        key.spec_ingredient_index().spec_index() - self.spec_index().spec_index() - 1
    }

    /// Stores `fields` as a new value, binding its tracked fields, every
    /// one stamped with the current revision.
    pub fn new_struct(&mut self, storage: &Storage, fields: T) -> (id: Id)
        requires
            old(self).wf(),
            old(self).spec_values().len() < u32::MAX,
        ensures
            final(self).wf(),
            final(self).spec_index() == old(self).spec_index(),
            id.spec_index() == old(self).spec_values().len(),
            final(self).spec_values().len() == old(self).spec_values().len() + 1,
            forall|i: int|
                0 <= i < old(self).spec_values().len() ==> final(self).spec_values()[i] == old(self).spec_values()[i],
            final(self).spec_values()[id.spec_index() as int].unbound() == fields.unbound(),
            forall|k: u32|
                k < tracked_field_count::<T>() ==> #[trigger] final(self).spec_values()[id.spec_index() as int].projection(k)
                    == Some(field_projection(old(self).spec_index(), id, k as nat)),
            final(self).spec_created_at() == old(self).spec_created_at().push(
                storage.spec_revision(),
            ),
            final(self).spec_field_revisions() == old(self).spec_field_revisions().push(
                fresh_revisions(tracked_field_count::<T>(), storage.spec_revision()),
            ),
            final(self).spec_field_revisions()[id.spec_index() as int].len()
                == tracked_field_count::<T>(),
            forall|k: int|
                0 <= k < tracked_field_count::<T>() ==> #[trigger] final(self).spec_field_revisions()[id.spec_index() as int][k]
                    == storage.spec_revision(),
    {
        let id = Id::from_index(self.values.len() as u32);
        let mut fields = fields;
        T::bind_tracked_fields(self.index, id, &mut fields);
        self.values.push(fields);
        let revision = storage.current_revision();
        self.created_at.push(revision);
        let mut stamps: Vec<u64> = Vec::new();
        let mut k: u32 = 0;
        while k < self.field_count
            invariant
                k <= self.field_count,
                stamps@ == fresh_revisions(k as nat, revision),
            decreases self.field_count - k,
        {
            stamps.push(revision);
            k = k + 1;
            assert(stamps@ =~= fresh_revisions(k as nat, revision));
        }
        let ghost before = self.spec_field_revisions();
        proof {
            lemma_new_fields_stamped_with_creation_revision(before, tracked_field_count::<T>(), revision);
        }
        self.field_revisions.push(stamps);
        assert(self.spec_field_revisions() =~= before.push(
            fresh_revisions(tracked_field_count::<T>(), revision),
        ));
        assert(self.spec_values()[id.spec_index() as int] == fields);
        id
    }

    /// Updates the value `id` to `new_fields` in `storage`'s revision: the
    /// value then holds the new data, its tracked fields keeping their
    /// projections, and the data's own update reports, for each tracked
    /// field, whether it changed, and whether any other field changed. Exactly the tracked
    /// fields that changed are stamped with the current revision; every
    /// other stamp, and every other value, is left as it was.
    pub fn update_struct(&mut self, storage: &Storage, id: Id, new_fields: T) -> (changed: (Vec<bool>, bool))
        requires
            old(self).wf(),
            old(self).contains_id(id),
        ensures
            final(self).wf(),
            final(self).spec_index() == old(self).spec_index(),
            final(self).spec_values().len() == old(self).spec_values().len(),
            forall|i: int|
                0 <= i < old(self).spec_values().len() && i != id.spec_index() ==> final(self).spec_values()[i]
                    == old(self).spec_values()[i],
            forall|k: u32|
                #[trigger] final(self).spec_values()[id.spec_index() as int].projection(k)
                    == old(self).spec_values()[id.spec_index() as int].projection(k),
            final(self).spec_values()[id.spec_index() as int].unbound() == new_fields.unbound(),
            changed.0@.len() == tracked_field_count::<T>(),
            forall|k: u32|
                k < tracked_field_count::<T>() && #[trigger] old(self).spec_values()[id.spec_index() as int].tracked_field_differs(
                    &new_fields,
                    k,
                ) ==> changed.0@[k as int],
            old(self).spec_values()[id.spec_index() as int].untracked_fields_differ(&new_fields)
                ==> changed.1,
            final(self).spec_created_at() == old(self).spec_created_at(),
            final(self).spec_field_revisions() == old(self).spec_field_revisions().update(
                id.spec_index() as int,
                updated_revisions(
                    old(self).spec_field_revisions()[id.spec_index() as int],
                    changed.0@,
                    storage.spec_revision(),
                ),
            ),
    {
        let i = id.index() as usize;
        let ghost old_values = self.values@;
        let r = T::update_fields(&mut self.values[i], new_fields);
        proof {
            assert forall|j: int|
                0 <= j < old_values.len() && j != i implies self.values@[j] == old_values[j] by {}
        }
        let revision = storage.current_revision();
        let ghost before = self.spec_field_revisions();
        let mut stamps: Vec<u64> = Vec::new();
        std::mem::swap(&mut stamps, &mut self.field_revisions[i]);
        assert(stamps@ == before[i as int]);
        let n = self.field_count;
        let mut k: u32 = 0;
        while k < n
            invariant
                n == tracked_field_count::<T>(),
                r.0@.len() == n,
                stamps@.len() == n,
                before[i as int].len() == n,
                k <= n,
                forall|q: int|
                    0 <= q < n ==> #[trigger] stamps@[q] == if q < k {
                        updated_revisions(before[i as int], r.0@, revision)[q]
                    } else {
                        before[i as int][q]
                    },
            decreases n - k,
        {
            if r.0[k as usize] {
                stamps.set(k as usize, revision);
            }
            k = k + 1;
        }
        assert(stamps@ =~= updated_revisions(before[i as int], r.0@, revision));
        self.field_revisions.set(i, stamps);
        assert(self.spec_field_revisions() =~= before.update(
            i as int,
            updated_revisions(before[i as int], r.0@, revision),
        ));
        r
    }

    /// The key of the value `id` itself.
    pub fn database_key_index(&self, id: Id) -> (key: DatabaseKeyIndex)
        ensures
            key == DatabaseKeyIndex::spec_new(self.spec_index(), id),
    {
        DatabaseKeyIndex::new(self.index, id)
    }

    /// The keys of all values, in id order.
    pub fn entries(&self) -> (keys: Vec<DatabaseKeyIndex>)
        requires
            self.wf(),
        ensures
            keys@ == keys_of(self.spec_index(), self.spec_values().len()),
    {
        key_entries(self.index, self.values.len())
    }

    /// Returns the value `id` without recording a dependency.
    pub fn untracked_field(&self, id: Id) -> (fields: &T)
        requires
            self.contains_id(id),
        ensures
            *fields == self.spec_values()[id.spec_index() as int],
    {
        &self.values[id.index() as usize]
    }

    /// The durability and last change of a tracked field projection: the
    /// stamp of that field alone.
    pub fn dependency_stamp(&self, key: DatabaseKeyIndex) -> (stamp: (Durability, u64))
        requires
            self.wf(),
            self.owns_projection(key),
        ensures
            stamp == (
                Durability::Low,
                self.spec_field_revisions()[key.spec_key_index().spec_index() as int][self.field_of(
                    key,
                )],
            ),
    {
        let i = key.key_index().index() as usize;
        let k = (key.ingredient_index().as_u32() - self.index.as_u32() - 1) as usize;
        assert(self.spec_field_revisions()[i as int] == self.field_revisions@[i as int]@);
        (Durability::Low, self.field_revisions[i][k])
    }
}

/// Adapts tracked data to the ingredient that stores it.
pub struct TrackedConfig<T> {
    phantom: PhantomData<T>,
}

impl<T: TrackedData> TrackedConfig<T> {
    /// The debug name: the last path component of the data type.
    pub fn debug_name() -> (name: &'static str)
        ensures
            name@ == spec_last_path_component(T::TYPE_PATH@),
    {
        last_path_component(T::TYPE_PATH)
    }

    /// Finds the registered ingredient of this tracked data: the jar of its
    /// declaration, holding the struct ingredient and one projection per
    /// tracked field.
    ///
    /// The jar must be registered: an unregistered one is reported by
    /// [`lookup_generic_ingredient`], which callers can ask first.
    pub fn ingredient(storage: &Storage) -> (t: TrackedIngredient<T>)
        requires
            storage.wf(),
            jar_registered(*storage, T::INGREDIENT_KEY, tracked_field_count::<T>() + 1),
        ensures
            t.wf(),
            t.spec_values().len() == 0,
            exists|e: JarEntry|
                #![trigger storage.spec_jars().contains(e)]
                storage.spec_jars().contains(e) && e.key == T::INGREDIENT_KEY && e.first
                    == t.spec_index(),
    {
        let names = T::TRACKED_FIELD_NAMES.len();
        let field_count = names as u32;
        let index = lookup_generic_ingredient(
            storage,
            T::INGREDIENT_KEY,
            field_count + 1,
            "tracked",
            Self::debug_name(),
            "`#[derive(salsa::TrackedData)]` on its data type",
        ).unwrap();
        TrackedIngredient {
            index,
            field_count,
            values: Vec::new(),
            created_at: Vec::new(),
            field_revisions: Vec::new(),
        }
    }
}

/// A handle to tracked data.
///
/// Two handles are equal exactly when they name the same value.
pub struct TrackedHandle<T> {
    id: Id,
    phantom: PhantomData<T>,
}

impl<T> AsId for TrackedHandle<T> {
    closed spec fn spec_id(&self) -> Id {
        self.id
    }

    fn as_id(&self) -> (id: Id) {
        self.id
    }
}

impl<T> FromId for TrackedHandle<T> {
    fn from_id(id: Id) -> (value: Self) {
        TrackedHandle { id, phantom: PhantomData }
    }
}

impl<T> Clone for TrackedHandle<T> {
    fn clone(&self) -> (r: Self)
        ensures
            r == *self,
    {
        TrackedHandle { id: self.id, phantom: PhantomData }
    }
}

impl<T> Copy for TrackedHandle<T> {}

impl<T> TrackedHandle<T> {
    /// Whether two handles name the same value.
    pub fn same(&self, other: &Self) -> (same: bool)
        ensures
            same == (self.spec_id() == other.spec_id()),
    {
        self.id == other.id
    }
}

impl<T: TrackedDataConfig> TrackedHandle<T> {
    /// Creates tracked data in `table`, stamped with the current revision,
    /// and returns the nominal struct that names it.
    pub fn new(db: &DatabaseImpl, table: &mut TrackedIngredient<T>, fields: T) -> (r: T::Struct)
        requires
            db.wf(),
            old(table).wf(),
            old(table).spec_values().len() < u32::MAX,
        ensures
            final(table).wf(),
            final(table).spec_index() == old(table).spec_index(),
            r.spec_id().spec_index() == old(table).spec_values().len(),
            final(table).spec_values().len() == old(table).spec_values().len() + 1,
            forall|i: int|
                0 <= i < old(table).spec_values().len() ==> final(table).spec_values()[i] == old(table).spec_values()[i],
            final(table).spec_values()[r.spec_id().spec_index() as int].unbound() == fields.unbound(),
            forall|k: u32|
                k < tracked_field_count::<T>() ==> #[trigger] final(table).spec_values()[r.spec_id().spec_index() as int].projection(k)
                    == Some(field_projection(old(table).spec_index(), r.spec_id(), k as nat)),
            final(table).spec_created_at() == old(table).spec_created_at().push(
                db.spec_storage().spec_revision(),
            ),
            final(table).spec_field_revisions() == old(table).spec_field_revisions().push(
                fresh_revisions(tracked_field_count::<T>(), db.spec_storage().spec_revision()),
            ),
            final(table).spec_field_revisions()[r.spec_id().spec_index() as int].len()
                == tracked_field_count::<T>(),
            forall|k: int|
                0 <= k < tracked_field_count::<T>() ==> #[trigger] final(table).spec_field_revisions()[r.spec_id().spec_index() as int][k]
                    == db.spec_storage().spec_revision(),
    {
        let id = table.new_struct(db.storage(), fields);
        T::Struct::from_id(id)
    }
}

impl<T: TrackedData> TrackedHandle<T> {

    /// Returns the tracked data, without recording a dependency on it.
    pub fn fields<S: Struct<Repr = TrackedHandle<T>>>(table: &TrackedIngredient<T>, value: S) -> (fields: &T)
        requires
            table.contains_id(value.spec_id()),
        ensures
            *fields == table.spec_values()[value.spec_id().spec_index() as int],
    {
        table.untracked_field(value.as_id())
    }
}

impl<T: TrackedData> HasJar for TrackedHandle<T> {
    open spec fn spec_jar_key() -> u64 {
        T::INGREDIENT_KEY
    }

    open spec fn spec_jar_ingredients() -> u32 {
        if tracked_field_count::<T>() >= u32::MAX {
            u32::MAX
        } else {
            (tracked_field_count::<T>() + 1) as u32
        }
    }

    fn jar_key() -> (key: u64) {
        T::INGREDIENT_KEY
    }

    /// The struct ingredient and one projection per tracked field.
    fn jar_ingredients() -> (count: u32) {
        let fields = T::TRACKED_FIELD_NAMES.len();
        if fields >= 0xffff_ffff {
            u32::MAX
        } else {
            fields as u32 + 1
        }
    }
}

impl<T> Update for TrackedHandle<T> {
    /// Replaces a handle that names a different value.
    fn maybe_update(current: &mut Self, new_value: Self) -> (changed: bool)
        ensures
            *final(current) == new_value,
            changed == (old(current).spec_id() != new_value.spec_id()),
    {
        if current.id == new_value.id {
            false
        } else {
            *current = new_value;
            true
        }
    }
}

/// A value stored in, and tracked through, its parent tracked data.
///
/// Its projection is bound when the parent receives an id.
pub struct TrackedField<T> {
    projection: Option<DatabaseKeyIndex>,
    value: T,
}

impl<T> TrackedField<T> {
    /// The projection this field is bound to, if any.
    pub closed spec fn spec_projection(&self) -> Option<DatabaseKeyIndex> {
        self.projection
    }

    /// The value of this field.
    pub closed spec fn spec_value(&self) -> T {
        self.value
    }

    /// This field with its projection cleared.
    pub closed spec fn spec_unbound(self) -> TrackedField<T> {
        TrackedField { projection: None, value: self.value }
    }

    /// Clearing the projection keeps the value, and fields with the same
    /// value are the same once cleared.
    pub broadcast proof fn lemma_unbound(a: TrackedField<T>, b: TrackedField<T>)
        ensures
            #[trigger] a.spec_unbound().spec_value() == a.spec_value(),
            a.spec_unbound().spec_projection() is None,
            (#[trigger] a.spec_unbound() == #[trigger] b.spec_unbound()) <==> a.spec_value()
                == b.spec_value(),
    {
    }

    /// Returns this field with its projection cleared.
    pub fn unbound(self) -> (field: TrackedField<T>)
        ensures
            field == self.spec_unbound(),
    {
        TrackedField { projection: None, value: self.value }
    }

    /// Returns the projection this field is bound to, if any.
    pub fn projection(&self) -> (projection: Option<DatabaseKeyIndex>)
        ensures
            projection == self.spec_projection(),
    {
        self.projection
    }

    /// Creates an unbound tracked field for data under construction.
    pub fn new(_db: &DatabaseImpl, value: T) -> (field: TrackedField<T>)
        ensures
            field.spec_projection() is None,
            field.spec_value() == value,
    {
        TrackedField { projection: None, value }
    }

    /// Returns the current value, recording a dependency on this field
    /// rather than on the parent record.
    pub fn value<'a, P: TrackedData>(
        &'a self,
        db: &mut DatabaseImpl,
        parent: &TrackedIngredient<P>,
    ) -> (value: &'a T)
        requires
            old(db).wf(),
            parent.wf(),
            self.spec_projection() matches Some(key) && parent.owns_projection(key),
        ensures
            final(db).wf(),
            *value == self.spec_value(),
            final(db).spec_storage().spec_reads() == old(db).spec_storage().spec_reads().push(
                TrackedRead {
                    key: self.spec_projection().unwrap(),
                    durability: Durability::Low,
                    changed_at: parent.spec_field_revisions()[self.spec_projection().unwrap().spec_key_index().spec_index() as int][parent.field_of(
                        self.spec_projection().unwrap(),
                    )],
                },
            ),
            final(db).spec_storage().spec_revision() == old(db).spec_storage().spec_revision(),
            final(db).spec_storage().spec_jars() == old(db).spec_storage().spec_jars(),
    {
        let projection = self.projection.unwrap();
        let stamp = parent.dependency_stamp(projection);
        db.storage_mut().report_tracked_read(projection, stamp.0, stamp.1);
        &self.value
    }

    /// Binds this field to the projection of field `relative_field_index`
    /// of the value `parent_id` of the ingredient `parent_ingredient`.
    pub fn bind(&mut self, parent_ingredient: IngredientIndex, parent_id: Id, relative_field_index: usize)
        requires
            parent_ingredient.spec_successor(relative_field_index) <= u32::MAX,
        ensures
            final(self).spec_projection() == Some(
                field_projection(parent_ingredient, parent_id, relative_field_index as nat),
            ),
            final(self).spec_value() == old(self).spec_value(),
    {
        self.projection = Some(
            DatabaseKeyIndex::new(parent_ingredient.successor(relative_field_index), parent_id),
        );
    }
}

impl<T: PartialEq> PartialEq for TrackedField<T> {
    /// Fields compare by value; the projection is ignored.
    fn eq(&self, other: &Self) -> (r: bool) {
        self.value == other.value
    }
}

impl<T: PartialEq> PartialEqSpecImpl for TrackedField<T> {
    open spec fn obeys_eq_spec() -> bool {
        T::obeys_eq_spec()
    }

    open spec fn eq_spec(&self, other: &Self) -> bool {
        self.spec_value().eq_spec(&other.spec_value())
    }
}

impl<T: Eq> Eq for TrackedField<T> {}

/// `Hash::hash`: feeds `value` into `state`. Nothing is promised of the
/// state it leaves, as `Hash` promises nothing of it either.
#[verifier::external_body]
fn hash_into<T: Hash, H: Hasher>(value: &T, state: &mut H) {
    value.hash(state)
}

impl<T: Hash> Hash for TrackedField<T> {
    /// A field hashes as its value; the projection is ignored.
    fn hash<H: Hasher>(&self, state: &mut H) {
        hash_into(&self.value, state)
    }
}

impl<T> TrackedField<T> {
    /// Updates the value with the field's update function `update`, called
    /// once on the stored value and the new value, while preserving the
    /// field's projection: the new value's own, unbound, projection is
    /// discarded. Returns what `update` returned.
    pub fn maybe_update<F: FnOnce(&mut T, T) -> bool>(current: &mut Self, new_value: Self, update: F) -> (changed: bool)
        requires
            forall|v: &mut T, n: T| call_requires(update, (v, n)),
        ensures
            final(current).spec_projection() == old(current).spec_projection(),
            exists|v: &mut T|
                *v == old(current).spec_value() && *final(v) == final(current).spec_value()
                    && call_ensures(update, (v, new_value.spec_value()), changed),
    {
        update(&mut current.value, new_value.value)
    }
}

// ---------------------------------------------------------------------------
// Interned data
// ---------------------------------------------------------------------------

/// Whether no value occurs twice.
pub open spec fn distinct_values<T>(values: Seq<T>) -> bool {
    forall|i: int, j: int|
        0 <= i < values.len() && 0 <= j < values.len() && i != j ==> values[i] != values[j]
}

/// The values of an interned ingredient after interning `key`: a key that
/// is present leaves them as they are; a new key is appended.
pub open spec fn intern_values<T>(values: Seq<T>, key: T) -> Seq<T> {
    if values.contains(key) {
        values
    } else {
        values.push(key)
    }
}

/// The ingredient that stores interned data; each value occurs once.
pub struct InternedIngredient<T> {
    index: IngredientIndex,
    values: Vec<T>,
}

impl<T: InternedData> InternedIngredient<T> {
    pub closed spec fn spec_index(&self) -> IngredientIndex {
        self.index
    }

    pub closed spec fn spec_values(&self) -> Seq<T> {
        self.values@
    }

    /// No data is interned twice, and every id fits in 32 bits.
    pub open spec fn wf(&self) -> bool {
        &&& distinct_values(self.spec_values())
        &&& self.spec_values().len() <= u32::MAX
    }

    /// Whether `id` names a value of this ingredient.
    pub open spec fn contains_id(&self, id: Id) -> bool {
        id.spec_index() < self.spec_values().len()
    }

    /// Returns the position of the data `key` stands for, or `None` when
    /// it is not interned.
    fn find<K: Lookup<T>>(&self, key: &K) -> (pos: Option<usize>)
        requires
            self.wf(),
        ensures
            pos matches Some(p) ==> p < self.spec_values().len() && self.spec_values()[p as int]
                == key.spec_lookup_data(),
            pos is None ==> !self.spec_values().contains(key.spec_lookup_data()),
    {
        let n = self.values.len();
        let mut i: usize = 0;
        while i < n
            invariant
                n == self.values@.len(),
                i <= n,
                forall|k: int| 0 <= k < i ==> self.values@[k] != key.spec_lookup_data(),
            decreases n - i,
        {
            if key.lookup_eq(&self.values[i]) {
                return Some(i);
            }
            i = i + 1;
        }
        None
    }

    /// Returns the position of the data the borrowed `key` stands for, or
    /// `None` when it is not interned.
    fn find_borrowed<Q: BorrowedLookup<T>>(&self, key: &Q) -> (pos: Option<usize>)
        requires
            self.wf(),
        ensures
            pos matches Some(p) ==> p < self.spec_values().len() && self.spec_values()[p as int]
                == key.spec_borrowed_data(),
            pos is None ==> !self.spec_values().contains(key.spec_borrowed_data()),
    {
        let n = self.values.len();
        let mut i: usize = 0;
        while i < n
            invariant
                n == self.values@.len(),
                i <= n,
                forall|k: int| 0 <= k < i ==> self.values@[k] != key.spec_borrowed_data(),
            decreases n - i,
        {
            if key.borrowed_eq(&self.values[i]) {
                return Some(i);
            }
            i = i + 1;
        }
        None
    }

    /// Interns the data `key` stands for and returns its id; the key is
    /// converted into owned data only when that data is not interned yet.
    pub fn intern_id<K: Lookup<T>>(&mut self, key: K) -> (id: Id)
        requires
            old(self).wf(),
            old(self).spec_values().len() < u32::MAX,
        ensures
            final(self).wf(),
            final(self).spec_index() == old(self).spec_index(),
            final(self).spec_values() == intern_values(old(self).spec_values(), key.spec_lookup_data()),
            final(self).contains_id(id),
            final(self).spec_values()[id.spec_index() as int] == key.spec_lookup_data(),
    {
        match self.find(&key) {
            Some(pos) => Id::from_index(pos as u32),
            None => {
                let id = Id::from_index(self.values.len() as u32);
                self.push_new(key.into_owned());
                id
            },
        }
    }

    /// Interns the data a borrowed `key` stands for; an owned copy is made
    /// only when that data is not interned yet.
    pub fn intern_borrowed<Q: BorrowedLookup<T>>(&mut self, key: &Q) -> (id: Id)
        requires
            old(self).wf(),
            old(self).spec_values().len() < u32::MAX,
        ensures
            final(self).wf(),
            final(self).spec_index() == old(self).spec_index(),
            final(self).spec_values() == intern_values(old(self).spec_values(), key.spec_borrowed_data()),
            final(self).contains_id(id),
            final(self).spec_values()[id.spec_index() as int] == key.spec_borrowed_data(),
    {
        match self.find_borrowed(key) {
            Some(pos) => Id::from_index(pos as u32),
            None => {
                let id = Id::from_index(self.values.len() as u32);
                self.push_new(key.to_owned_data());
                id
            },
        }
    }

    /// Appends a key that is not interned yet.
    fn push_new(&mut self, key: T)
        requires
            old(self).wf(),
            old(self).spec_values().len() < u32::MAX,
            !old(self).spec_values().contains(key),
        ensures
            final(self).wf(),
            final(self).spec_index() == old(self).spec_index(),
            final(self).spec_values() == old(self).spec_values().push(key),
    {
        let ghost before = self.values@;
        self.values.push(key);
        proof {
            let v = self.values@;
            assert forall|i: int, j: int|
                0 <= i < v.len() && 0 <= j < v.len() && i != j implies v[i] != v[j] by {
                if i < before.len() && j < before.len() {
                    assert(v[i] == before[i] && v[j] == before[j]);
                } else if i < before.len() {
                    assert(v[i] == before[i]);
                    assert(before.contains(v[i]));
                } else {
                    assert(v[j] == before[j]);
                    assert(before.contains(v[j]));
                }
            }
        }
    }

    /// The keys of all values, in id order.
    pub fn entries(&self) -> (keys: Vec<DatabaseKeyIndex>)
        requires
            self.wf(),
        ensures
            keys@ == keys_of(self.spec_index(), self.spec_values().len()),
    {
        key_entries(self.index, self.values.len())
    }

    /// Returns the interned data of `id`.
    pub fn data(&self, id: Id) -> (data: &T)
        requires
            self.contains_id(id),
        ensures
            *data == self.spec_values()[id.spec_index() as int],
    {
        &self.values[id.index() as usize]
    }
}

/// Adapts interned data to the ingredient that stores it.
pub struct InternedConfig<T> {
    phantom: PhantomData<T>,
}

impl<T: InternedData> InternedConfig<T> {
    /// The debug name: the last path component of the data type.
    pub fn debug_name() -> (name: &'static str)
        ensures
            name@ == spec_last_path_component(T::TYPE_PATH@),
    {
        last_path_component(T::TYPE_PATH)
    }

    /// Finds the registered ingredient of this interned data.
    ///
    /// The jar must be registered: an unregistered one is reported by
    /// [`lookup_generic_ingredient`], which callers can ask first.
    pub fn ingredient(storage: &Storage) -> (t: InternedIngredient<T>)
        requires
            storage.wf(),
            jar_registered(*storage, T::INGREDIENT_KEY, 1),
        ensures
            t.wf(),
            t.spec_values().len() == 0,
            exists|e: JarEntry|
                #![trigger storage.spec_jars().contains(e)]
                storage.spec_jars().contains(e) && e.key == T::INGREDIENT_KEY && e.first
                    == t.spec_index(),
    {
        let index = lookup_generic_ingredient(
            storage,
            T::INGREDIENT_KEY,
            1,
            "interned",
            Self::debug_name(),
            "`#[derive(salsa::InternedData)]` on its data type",
        ).unwrap();
        InternedIngredient { index, values: Vec::new() }
    }
}

/// A handle to interned data.
pub struct Interned<T> {
    id: Id,
    phantom: PhantomData<T>,
}

impl<T> AsId for Interned<T> {
    closed spec fn spec_id(&self) -> Id {
        self.id
    }

    fn as_id(&self) -> (id: Id) {
        self.id
    }
}

impl<T> FromId for Interned<T> {
    fn from_id(id: Id) -> (value: Self) {
        Interned { id, phantom: PhantomData }
    }
}

impl<T> Clone for Interned<T> {
    fn clone(&self) -> (r: Self)
        ensures
            r == *self,
    {
        Interned { id: self.id, phantom: PhantomData }
    }
}

impl<T> Copy for Interned<T> {}

impl<T> Interned<T> {
    /// Whether two handles name the same value.
    pub fn same(&self, other: &Self) -> (same: bool)
        ensures
            same == (self.spec_id() == other.spec_id()),
    {
        self.id == other.id
    }
}

impl<T: InternedDataConfig> Interned<T> {
    /// Interns the data `key` stands for and returns the nominal struct that
    /// names it; the key is converted into owned data only on a miss.
    pub fn new<K: Lookup<T>>(_db: &DatabaseImpl, table: &mut InternedIngredient<T>, key: K) -> (r: T::Struct)
        requires
            old(table).wf(),
            old(table).spec_values().len() < u32::MAX,
        ensures
            final(table).wf(),
            final(table).spec_index() == old(table).spec_index(),
            final(table).spec_values() == intern_values(old(table).spec_values(), key.spec_lookup_data()),
            final(table).contains_id(r.spec_id()),
            final(table).spec_values()[r.spec_id().spec_index() as int] == key.spec_lookup_data(),
            old(table).spec_values().contains(key.spec_lookup_data()) ==> final(table).spec_values()
                == old(table).spec_values(),
            !old(table).spec_values().contains(key.spec_lookup_data()) ==> r.spec_id().spec_index()
                == old(table).spec_values().len(),
            forall|k: int|
                0 <= k < final(table).spec_values().len() && final(table).spec_values()[k] == key.spec_lookup_data()
                    ==> k == r.spec_id().spec_index(),
    {
        let id = table.intern_id(key);
        T::Struct::from_id(id)
    }

    /// Interns the data a borrowed `key` stands for; an owned copy is made
    /// only on a miss.
    pub fn new_borrowed<Q: BorrowedLookup<T>>(
        _db: &DatabaseImpl,
        table: &mut InternedIngredient<T>,
        key: &Q,
    ) -> (r: T::Struct)
        requires
            old(table).wf(),
            old(table).spec_values().len() < u32::MAX,
        ensures
            final(table).wf(),
            final(table).spec_index() == old(table).spec_index(),
            final(table).spec_values() == intern_values(old(table).spec_values(), key.spec_borrowed_data()),
            final(table).contains_id(r.spec_id()),
            final(table).spec_values()[r.spec_id().spec_index() as int] == key.spec_borrowed_data(),
            old(table).spec_values().contains(key.spec_borrowed_data()) ==> final(table).spec_values()
                == old(table).spec_values(),
            !old(table).spec_values().contains(key.spec_borrowed_data()) ==> r.spec_id().spec_index()
                == old(table).spec_values().len(),
            forall|k: int|
                0 <= k < final(table).spec_values().len() && final(table).spec_values()[k] == key.spec_borrowed_data()
                    ==> k == r.spec_id().spec_index(),
    {
        let id = table.intern_borrowed(key);
        T::Struct::from_id(id)
    }
}

impl<T: InternedData> Interned<T> {

    /// Returns the interned data.
    pub fn fields<S: Struct>(table: &InternedIngredient<T>, value: S) -> (data: &T)
        where
            S::Repr: InternedStructRepr<Data = T>,
        requires
            table.contains_id(value.spec_id()),
        ensures
            *data == table.spec_values()[value.spec_id().spec_index() as int],
    {
        table.data(value.as_id())
    }
}

impl<T: InternedData> HasJar for Interned<T> {
    open spec fn spec_jar_key() -> u64 {
        T::INGREDIENT_KEY
    }

    open spec fn spec_jar_ingredients() -> u32 {
        1
    }

    fn jar_key() -> (key: u64) {
        T::INGREDIENT_KEY
    }

    fn jar_ingredients() -> (count: u32) {
        1
    }
}

impl<T> Update for Interned<T> {
    /// Replaces a handle that names a different value.
    fn maybe_update(current: &mut Self, new_value: Self) -> (changed: bool)
        ensures
            *final(current) == new_value,
            changed == (old(current).spec_id() != new_value.spec_id()),
    {
        if current.id == new_value.id {
            false
        } else {
            *current = new_value;
            true
        }
    }
}

/// Two interned values with the same data are one value: interning a key
/// that is interned already changes nothing, and distinct keys get distinct
/// ids.
pub proof fn lemma_interning_is_injective<T>(values: Seq<T>, a: T, b: T)
    requires
        distinct_values(values),
    ensures
        intern_values(intern_values(values, a), a) == intern_values(values, a),
        distinct_values(intern_values(values, a)),
        ({
            let v = intern_values(intern_values(values, a), b);
            forall|i: int, j: int|
                0 <= i < v.len() && 0 <= j < v.len() && v[i] == a && v[j] == b ==> (i == j <==> a
                    == b)
        }),
{
    let v1 = intern_values(values, a);
    if !values.contains(a) {
        assert(v1[values.len() as int] == a);
        assert(v1.contains(a));
        assert forall|i: int, j: int|
            0 <= i < v1.len() && 0 <= j < v1.len() && i != j implies v1[i] != v1[j] by {
            if i < values.len() && j < values.len() {
            } else if i < values.len() {
                assert(values.contains(v1[i]));
            } else {
                assert(values.contains(v1[j]));
            }
        }
    }
    let v2 = intern_values(v1, b);
    if !v1.contains(b) {
        assert forall|i: int, j: int|
            0 <= i < v2.len() && 0 <= j < v2.len() && i != j implies v2[i] != v2[j] by {
            if i < v1.len() && j < v1.len() {
            } else if i < v1.len() {
                assert(v1.contains(v2[i]));
            } else {
                assert(v1.contains(v2[j]));
            }
        }
    }
}

// ---------------------------------------------------------------------------
// Inputs and input fields
// ---------------------------------------------------------------------------

/// The ingredient that stores inputs, or the values of input fields: each
/// value with the revision in which it last changed and its durability.
pub struct InputIngredient<T> {
    index: IngredientIndex,
    values: Vec<T>,
    revisions: Vec<u64>,
    durabilities: Vec<Durability>,
}

impl<T> InputIngredient<T> {
    pub closed spec fn spec_index(&self) -> IngredientIndex {
        self.index
    }

    pub closed spec fn spec_values(&self) -> Seq<T> {
        self.values@
    }

    /// The revision in which each value last changed.
    pub closed spec fn spec_revisions(&self) -> Seq<u64> {
        self.revisions@
    }

    pub closed spec fn spec_durabilities(&self) -> Seq<Durability> {
        self.durabilities@
    }

    /// Every value has one revision stamp and one durability, and every id
    /// fits in 32 bits.
    pub open spec fn wf(&self) -> bool {
        &&& self.spec_values().len() == self.spec_revisions().len()
        &&& self.spec_values().len() == self.spec_durabilities().len()
        &&& self.spec_values().len() <= u32::MAX
    }

    /// Whether `id` names a value of this ingredient.
    pub open spec fn contains_id(&self, id: Id) -> bool {
        id.spec_index() < self.spec_values().len()
    }

    /// Whether `new` is `old` with the value `id` replaced by `value`,
    /// stamped with `revision` and `durability`, and every other value
    /// left as it was.
    pub open spec fn replaced(
        old: InputIngredient<T>,
        id: Id,
        value: T,
        revision: u64,
        durability: Durability,
        new: InputIngredient<T>,
    ) -> bool {
        let i = id.spec_index() as int;
        &&& new.spec_index() == old.spec_index()
        &&& new.spec_values() == old.spec_values().update(i, value)
        &&& new.spec_revisions() == old.spec_revisions().update(i, revision)
        &&& new.spec_durabilities() == old.spec_durabilities().update(i, durability)
    }

    /// Stores a new input value, stamped with `revision` and `durability`.
    pub fn new_input(&mut self, value: T, revision: u64, durability: Durability) -> (id: Id)
        requires
            old(self).wf(),
            old(self).spec_values().len() < u32::MAX,
        ensures
            final(self).wf(),
            id.spec_index() == old(self).spec_values().len(),
            final(self).spec_index() == old(self).spec_index(),
            final(self).spec_values() == old(self).spec_values().push(value),
            final(self).spec_revisions() == old(self).spec_revisions().push(revision),
            final(self).spec_durabilities() == old(self).spec_durabilities().push(durability),
    {
        let id = Id::from_index(self.values.len() as u32);
        self.values.push(value);
        self.revisions.push(revision);
        self.durabilities.push(durability);
        id
    }

    /// Returns the value `id`, recording a dependency on it.
    pub fn field<'a>(&'a self, storage: &mut Storage, id: Id) -> (value: &'a T)
        requires
            old(storage).wf(),
            self.wf(),
            self.contains_id(id),
        ensures
            final(storage).wf(),
            *value == self.spec_values()[id.spec_index() as int],
            final(storage).spec_reads() == old(storage).spec_reads().push(
                TrackedRead {
                    key: DatabaseKeyIndex::spec_new(self.spec_index(), id),
                    durability: self.spec_durabilities()[id.spec_index() as int],
                    changed_at: self.spec_revisions()[id.spec_index() as int],
                },
            ),
            final(storage).spec_revision() == old(storage).spec_revision(),
            final(storage).spec_jars() == old(storage).spec_jars(),
    {
        let i = id.index() as usize;
        storage.report_tracked_read(
            DatabaseKeyIndex::new(self.index, id),
            self.durabilities[i],
            self.revisions[i],
        );
        &self.values[i]
    }

    /// The keys of all values, in id order.
    pub fn entries(&self) -> (keys: Vec<DatabaseKeyIndex>)
        requires
            self.wf(),
        ensures
            keys@ == keys_of(self.spec_index(), self.spec_values().len()),
    {
        key_entries(self.index, self.values.len())
    }

    /// Returns the value `id` without recording a dependency.
    pub fn leak_fields(&self, id: Id) -> (value: &T)
        requires
            self.contains_id(id),
        ensures
            *value == self.spec_values()[id.spec_index() as int],
    {
        &self.values[id.index() as usize]
    }

    /// Replaces the value `id`, stamping it with `revision` and with
    /// `durability` when one is given; returns the old value.
    pub fn set_field(&mut self, id: Id, value: T, revision: u64, durability: Option<Durability>) -> (old_value: T)
        requires
            old(self).wf(),
            old(self).contains_id(id),
        ensures
            final(self).wf(),
            old_value == old(self).spec_values()[id.spec_index() as int],
            InputIngredient::replaced(
                *old(self),
                id,
                value,
                revision,
                match durability {
                    Some(d) => d,
                    None => old(self).spec_durabilities()[id.spec_index() as int],
                },
                *final(self),
            ),
    {
        let i = id.index() as usize;
        let ghost new_value = value;
        let mut value = value;
        std::mem::swap(&mut value, &mut self.values[i]);
        assert(self.values@ =~= old(self).values@.update(i as int, new_value));
        self.revisions.set(i, revision);
        match durability {
            Some(d) => self.durabilities.set(i, d),
            None => {
                assert(self.durabilities@ =~= old(self).durabilities@.update(
                    i as int,
                    old(self).durabilities@[i as int],
                ));
            },
        }
        value
    }

    /// Lets `modify` change the value `id` in place, stamping it with
    /// `revision`; the value becomes what `modify` left behind, and what
    /// `modify` returned is returned.
    pub fn modify_field<R, F: FnOnce(&mut T) -> R>(&mut self, id: Id, revision: u64, modify: F) -> (r: R)
        requires
            old(self).wf(),
            old(self).contains_id(id),
            forall|v: &mut T| call_requires(modify, (v,)),
        ensures
            final(self).wf(),
            final(self).spec_index() == old(self).spec_index(),
            final(self).spec_values().len() == old(self).spec_values().len(),
            forall|k: int|
                0 <= k < old(self).spec_values().len() && k != id.spec_index() ==> final(self).spec_values()[k] == old(self).spec_values()[k],
            final(self).spec_revisions() == old(self).spec_revisions().update(
                id.spec_index() as int,
                revision,
            ),
            final(self).spec_durabilities() == old(self).spec_durabilities(),
            exists|v: &mut T|
                *v == old(self).spec_values()[id.spec_index() as int] && *final(v)
                    == final(self).spec_values()[id.spec_index() as int] && call_ensures(
                    modify,
                    (v,),
                    r,
                ),
    {
        let i = id.index() as usize;
        self.revisions.set(i, revision);
        modify(&mut self.values[i])
    }
}

/// Adapts input data to the ingredient that stores it.
pub struct InputConfig<T> {
    phantom: PhantomData<T>,
}

impl<T: InputData> InputConfig<T> {
    /// The debug name: the last path component of the data type.
    pub fn debug_name() -> (name: &'static str)
        ensures
            name@ == spec_last_path_component(T::TYPE_PATH@),
    {
        last_path_component(T::TYPE_PATH)
    }

    /// Finds the registered ingredient of this input data.
    ///
    /// The jar must be registered: an unregistered one is reported by
    /// [`lookup_generic_ingredient`], which callers can ask first.
    pub fn ingredient(storage: &Storage) -> (t: InputIngredient<T>)
        requires
            storage.wf(),
            jar_registered(*storage, T::INGREDIENT_KEY, 1),
        ensures
            t.wf(),
            t.spec_values().len() == 0,
            exists|e: JarEntry|
                #![trigger storage.spec_jars().contains(e)]
                storage.spec_jars().contains(e) && e.key == T::INGREDIENT_KEY && e.first
                    == t.spec_index(),
    {
        let index = lookup_generic_ingredient(
            storage,
            T::INGREDIENT_KEY,
            1,
            "input",
            Self::debug_name(),
            "`#[derive(salsa::InputData)]` on its data type",
        ).unwrap();
        InputIngredient { index, values: Vec::new(), revisions: Vec::new(), durabilities: Vec::new() }
    }
}

/// Adapts the values of input fields to the ingredient that stores them.
pub struct InputFieldConfig<T> {
    phantom: PhantomData<T>,
}

impl<T: FieldData> InputFieldConfig<T> {
    /// The debug name: the last path component of the value type.
    pub fn debug_name() -> (name: &'static str)
        ensures
            name@ == spec_last_path_component(T::TYPE_PATH@),
    {
        last_path_component(T::TYPE_PATH)
    }

    /// Finds the registered ingredient of the input fields of this type.
    ///
    /// The jar must be registered: an unregistered one is reported by
    /// [`lookup_generic_ingredient`], which callers can ask first.
    pub fn ingredient(storage: &Storage) -> (t: InputIngredient<T>)
        requires
            storage.wf(),
            jar_registered(*storage, T::INGREDIENT_KEY, 1),
        ensures
            t.wf(),
            t.spec_values().len() == 0,
            exists|e: JarEntry|
                #![trigger storage.spec_jars().contains(e)]
                storage.spec_jars().contains(e) && e.key == T::INGREDIENT_KEY && e.first
                    == t.spec_index(),
    {
        let index = lookup_generic_ingredient(
            storage,
            T::INGREDIENT_KEY,
            1,
            "input field",
            Self::debug_name(),
            "an `InputData` declaration containing `InputField<T>`",
        ).unwrap();
        InputIngredient { index, values: Vec::new(), revisions: Vec::new(), durabilities: Vec::new() }
    }
}

/// Stores a new input value with the default durability, stamped with the
/// current revision.
fn new_input<T>(db: &DatabaseImpl, table: &mut InputIngredient<T>, value: T) -> (id: Id)
    requires
        old(table).wf(),
        old(table).spec_values().len() < u32::MAX,
    ensures
        final(table).wf(),
        id.spec_index() == old(table).spec_values().len(),
        final(table).spec_index() == old(table).spec_index(),
        final(table).spec_values() == old(table).spec_values().push(value),
        final(table).spec_revisions() == old(table).spec_revisions().push(
            db.spec_storage().spec_revision(),
        ),
        final(table).spec_durabilities() == old(table).spec_durabilities().push(Durability::Low),
{
    new_input_with_durability(db, table, value, Durability::default())
}

/// Stores a new input value with `durability`, stamped with the current
/// revision.
fn new_input_with_durability<T>(
    db: &DatabaseImpl,
    table: &mut InputIngredient<T>,
    value: T,
    durability: Durability,
) -> (id: Id)
    requires
        old(table).wf(),
        old(table).spec_values().len() < u32::MAX,
    ensures
        final(table).wf(),
        id.spec_index() == old(table).spec_values().len(),
        final(table).spec_index() == old(table).spec_index(),
        final(table).spec_values() == old(table).spec_values().push(value),
        final(table).spec_revisions() == old(table).spec_revisions().push(
            db.spec_storage().spec_revision(),
        ),
        final(table).spec_durabilities() == old(table).spec_durabilities().push(durability),
{
    let revision = db.storage().current_revision();
    table.new_input(value, revision, durability)
}

/// Reads the value `id`, recording a dependency on it.
fn read_input<'a, T>(id: Id, db: &mut DatabaseImpl, table: &'a InputIngredient<T>) -> (value: &'a T)
    requires
        old(db).wf(),
        table.wf(),
        table.contains_id(id),
    ensures
        final(db).wf(),
        *value == table.spec_values()[id.spec_index() as int],
        final(db).spec_storage().spec_reads() == old(db).spec_storage().spec_reads().push(
            TrackedRead {
                key: DatabaseKeyIndex::spec_new(table.spec_index(), id),
                durability: table.spec_durabilities()[id.spec_index() as int],
                changed_at: table.spec_revisions()[id.spec_index() as int],
            },
        ),
        final(db).spec_storage().spec_revision() == old(db).spec_storage().spec_revision(),
        final(db).spec_storage().spec_jars() == old(db).spec_storage().spec_jars(),
{
    table.field(db.storage_mut(), id)
}

/// Starts a new revision and replaces the value `id` in it; returns the
/// old value.
fn set_input<T>(
    id: Id,
    db: &mut DatabaseImpl,
    table: &mut InputIngredient<T>,
    value: T,
    durability: Option<Durability>,
) -> (old_value: T)
    requires
        old(db).wf(),
        old(db).spec_storage().can_advance(),
        old(table).wf(),
        old(table).contains_id(id),
    ensures
        final(db).wf(),
        final(table).wf(),
        final(db).spec_storage().spec_revision() == old(db).spec_storage().spec_revision() + 1,
        final(db).spec_storage().spec_reads() == old(db).spec_storage().spec_reads(),
        final(db).spec_storage().spec_jars() == old(db).spec_storage().spec_jars(),
        old_value == old(table).spec_values()[id.spec_index() as int],
        InputIngredient::replaced(
            *old(table),
            id,
            value,
            final(db).spec_storage().spec_revision(),
            match durability {
                Some(d) => d,
                None => old(table).spec_durabilities()[id.spec_index() as int],
            },
            *final(table),
        ),
{
    db.storage_mut().new_revision();
    let revision = db.storage().current_revision();
    table.set_field(id, value, revision, durability)
}

/// A handle to input data.
pub struct Input<T> {
    id: Id,
    phantom: PhantomData<T>,
}

impl<T> AsId for Input<T> {
    closed spec fn spec_id(&self) -> Id {
        self.id
    }

    fn as_id(&self) -> (id: Id) {
        self.id
    }
}

impl<T> FromId for Input<T> {
    fn from_id(id: Id) -> (value: Self) {
        Input { id, phantom: PhantomData }
    }
}

impl<T> Clone for Input<T> {
    fn clone(&self) -> (r: Self)
        ensures
            r == *self,
    {
        Input { id: self.id, phantom: PhantomData }
    }
}

impl<T> Copy for Input<T> {}

impl<T> Input<T> {
    /// Whether two handles name the same value.
    pub fn same(&self, other: &Self) -> (same: bool)
        ensures
            same == (self.spec_id() == other.spec_id()),
    {
        self.id == other.id
    }
}

impl<T: InputDataConfig> Input<T> {
    /// Creates a new input with the default durability and returns the
    /// nominal struct that names it.
    pub fn new(db: &DatabaseImpl, table: &mut InputIngredient<T>, fields: T) -> (r: T::Struct)
        requires
            old(table).wf(),
            old(table).spec_values().len() < u32::MAX,
        ensures
            final(table).wf(),
            r.spec_id().spec_index() == old(table).spec_values().len(),
            final(table).spec_index() == old(table).spec_index(),
            final(table).spec_values() == old(table).spec_values().push(fields),
            final(table).spec_revisions() == old(table).spec_revisions().push(
                db.spec_storage().spec_revision(),
            ),
            final(table).spec_durabilities() == old(table).spec_durabilities().push(
                Durability::Low,
            ),
            final(table).spec_revisions()[r.spec_id().spec_index() as int]
                == db.spec_storage().spec_revision(),
            final(table).spec_durabilities()[r.spec_id().spec_index() as int] == Durability::Low,
    {
        let id = new_input(db, table, fields);
        T::Struct::from_id(id)
    }
}

impl<T: InputData> Input<T> {

    /// Reads the immutable input record without recording a dependency.
    ///
    /// Mutable values are stored behind explicit [`InputField`] handles,
    /// which record their own dependencies when read.
    pub fn fields<S: Struct<Repr = Input<T>>>(table: &InputIngredient<T>, value: S) -> (fields: &T)
        requires
            table.contains_id(value.spec_id()),
        ensures
            *fields == table.spec_values()[value.spec_id().spec_index() as int],
    {
        table.leak_fields(value.as_id())
    }

    /// Reads the whole value without recording a dependency.
    pub fn fields_untracked<S: Struct<Repr = Input<T>>>(table: &InputIngredient<T>, value: S) -> (fields: &T)
        requires
            table.contains_id(value.spec_id()),
        ensures
            *fields == table.spec_values()[value.spec_id().spec_index() as int],
    {
        table.leak_fields(value.as_id())
    }
}

impl<T: InputData> HasJar for Input<T> {
    open spec fn spec_jar_key() -> u64 {
        T::INGREDIENT_KEY
    }

    open spec fn spec_jar_ingredients() -> u32 {
        1
    }

    fn jar_key() -> (key: u64) {
        T::INGREDIENT_KEY
    }

    fn jar_ingredients() -> (count: u32) {
        1
    }
}

impl<T> Update for Input<T> {
    /// Replaces a handle that names a different value.
    fn maybe_update(current: &mut Self, new_value: Self) -> (changed: bool)
        ensures
            *final(current) == new_value,
            changed == (old(current).spec_id() != new_value.spec_id()),
    {
        if current.id == new_value.id {
            false
        } else {
            *current = new_value;
            true
        }
    }
}

/// An independently stored mutable field referenced by an immutable input
/// record.
pub struct InputField<T> {
    id: Id,
    phantom: PhantomData<T>,
}

impl<T> AsId for InputField<T> {
    closed spec fn spec_id(&self) -> Id {
        self.id
    }

    fn as_id(&self) -> (id: Id) {
        self.id
    }
}

impl<T> FromId for InputField<T> {
    fn from_id(id: Id) -> (value: Self) {
        InputField { id, phantom: PhantomData }
    }
}

impl<T> Clone for InputField<T> {
    fn clone(&self) -> (r: Self)
        ensures
            r == *self,
    {
        InputField { id: self.id, phantom: PhantomData }
    }
}

impl<T> Copy for InputField<T> {}

impl<T> InputField<T> {
    /// Whether two handles name the same value.
    pub fn same(&self, other: &Self) -> (same: bool)
        ensures
            same == (self.spec_id() == other.spec_id()),
    {
        self.id == other.id
    }
}

impl<T: FieldData> InputField<T> {
    /// Creates a new independently tracked input field with the default
    /// durability.
    pub fn new(db: &DatabaseImpl, table: &mut InputIngredient<T>, value: T) -> (r: InputField<T>)
        requires
            old(table).wf(),
            old(table).spec_values().len() < u32::MAX,
        ensures
            final(table).wf(),
            r.spec_id().spec_index() == old(table).spec_values().len(),
            final(table).spec_index() == old(table).spec_index(),
            final(table).spec_values() == old(table).spec_values().push(value),
            final(table).spec_revisions() == old(table).spec_revisions().push(
                db.spec_storage().spec_revision(),
            ),
            final(table).spec_durabilities() == old(table).spec_durabilities().push(
                Durability::Low,
            ),
            final(table).spec_revisions()[r.spec_id().spec_index() as int]
                == db.spec_storage().spec_revision(),
            final(table).spec_durabilities()[r.spec_id().spec_index() as int] == Durability::Low,
    {
        let id = new_input(db, table, value);
        InputField { id, phantom: PhantomData }
    }

    /// Creates a new input field with the given durability.
    pub fn new_with_durability(
        db: &DatabaseImpl,
        table: &mut InputIngredient<T>,
        value: T,
        durability: Durability,
    ) -> (r: InputField<T>)
        requires
            old(table).wf(),
            old(table).spec_values().len() < u32::MAX,
        ensures
            final(table).wf(),
            r.spec_id().spec_index() == old(table).spec_values().len(),
            final(table).spec_index() == old(table).spec_index(),
            final(table).spec_values() == old(table).spec_values().push(value),
            final(table).spec_revisions() == old(table).spec_revisions().push(
                db.spec_storage().spec_revision(),
            ),
            final(table).spec_durabilities() == old(table).spec_durabilities().push(durability),
            final(table).spec_revisions()[r.spec_id().spec_index() as int]
                == db.spec_storage().spec_revision(),
            final(table).spec_durabilities()[r.spec_id().spec_index() as int] == durability,
    {
        let id = new_input_with_durability(db, table, value, durability);
        InputField { id, phantom: PhantomData }
    }

    /// Reads this field and tracks only this field.
    pub fn get<'a>(self, db: &mut DatabaseImpl, table: &'a InputIngredient<T>) -> (value: &'a T)
        requires
            old(db).wf(),
            table.wf(),
            table.contains_id(self.spec_id()),
        ensures
            final(db).wf(),
            *value == table.spec_values()[self.spec_id().spec_index() as int],
            final(db).spec_storage().spec_reads() == old(db).spec_storage().spec_reads().push(
                TrackedRead {
                    key: DatabaseKeyIndex::spec_new(table.spec_index(), self.spec_id()),
                    durability: table.spec_durabilities()[self.spec_id().spec_index() as int],
                    changed_at: table.spec_revisions()[self.spec_id().spec_index() as int],
                },
            ),
            final(db).spec_storage().spec_revision() == old(db).spec_storage().spec_revision(),
            final(db).spec_storage().spec_jars() == old(db).spec_storage().spec_jars(),
    {
        read_input(self.id, db, table)
    }

    /// Reads this field without recording a dependency.
    pub fn get_untracked(self, table: &InputIngredient<T>) -> (value: &T)
        requires
            table.contains_id(self.spec_id()),
        ensures
            *value == table.spec_values()[self.spec_id().spec_index() as int],
    {
        table.leak_fields(self.id)
    }

    /// Replaces this field's value in a new revision; returns the old value.
    pub fn set(self, db: &mut DatabaseImpl, table: &mut InputIngredient<T>, value: T) -> (old_value: T)
        requires
            old(db).wf(),
            old(db).spec_storage().can_advance(),
            old(table).wf(),
            old(table).contains_id(self.spec_id()),
        ensures
            final(db).wf(),
            final(table).wf(),
            final(db).spec_storage().spec_revision() == old(db).spec_storage().spec_revision() + 1,
            final(db).spec_storage().spec_reads() == old(db).spec_storage().spec_reads(),
            final(db).spec_storage().spec_jars() == old(db).spec_storage().spec_jars(),
            old_value == old(table).spec_values()[self.spec_id().spec_index() as int],
            InputIngredient::replaced(
                *old(table),
                self.spec_id(),
                value,
                final(db).spec_storage().spec_revision(),
                old(table).spec_durabilities()[self.spec_id().spec_index() as int],
                *final(table),
            ),
    {
        set_input(self.id, db, table, value, None)
    }

    /// Replaces this field's value and its durability in a new revision;
    /// returns the old value.
    pub fn set_with_durability(
        self,
        db: &mut DatabaseImpl,
        table: &mut InputIngredient<T>,
        value: T,
        durability: Durability,
    ) -> (old_value: T)
        requires
            old(db).wf(),
            old(db).spec_storage().can_advance(),
            old(table).wf(),
            old(table).contains_id(self.spec_id()),
        ensures
            final(db).wf(),
            final(table).wf(),
            final(db).spec_storage().spec_revision() == old(db).spec_storage().spec_revision() + 1,
            final(db).spec_storage().spec_reads() == old(db).spec_storage().spec_reads(),
            final(db).spec_storage().spec_jars() == old(db).spec_storage().spec_jars(),
            old_value == old(table).spec_values()[self.spec_id().spec_index() as int],
            InputIngredient::replaced(
                *old(table),
                self.spec_id(),
                value,
                final(db).spec_storage().spec_revision(),
                durability,
                *final(table),
            ),
    {
        set_input(self.id, db, table, value, Some(durability))
    }

    /// Mutates this field in place in a new revision: the value becomes
    /// what the closure left behind, and the closure's result is returned.
    pub fn modify<R, F: FnOnce(&mut T) -> R>(
        self,
        db: &mut DatabaseImpl,
        table: &mut InputIngredient<T>,
        modify: F,
    ) -> (r: R)
        requires
            old(db).wf(),
            old(db).spec_storage().can_advance(),
            old(table).wf(),
            old(table).contains_id(self.spec_id()),
            forall|v: &mut T| call_requires(modify, (v,)),
        ensures
            final(db).wf(),
            final(table).wf(),
            final(db).spec_storage().spec_revision() == old(db).spec_storage().spec_revision() + 1,
            final(db).spec_storage().spec_reads() == old(db).spec_storage().spec_reads(),
            final(db).spec_storage().spec_jars() == old(db).spec_storage().spec_jars(),
            final(table).spec_index() == old(table).spec_index(),
            final(table).spec_values().len() == old(table).spec_values().len(),
            forall|k: int|
                0 <= k < old(table).spec_values().len() && k != self.spec_id().spec_index()
                    ==> final(table).spec_values()[k] == old(table).spec_values()[k],
            final(table).spec_revisions() == old(table).spec_revisions().update(
                self.spec_id().spec_index() as int,
                final(db).spec_storage().spec_revision(),
            ),
            final(table).spec_durabilities() == old(table).spec_durabilities(),
            exists|v: &mut T|
                *v == old(table).spec_values()[self.spec_id().spec_index() as int] && *final(v)
                    == final(table).spec_values()[self.spec_id().spec_index() as int]
                    && call_ensures(modify, (v,), r),
    {
        db.storage_mut().new_revision();
        let revision = db.storage().current_revision();
        table.modify_field(self.id, revision, modify)
    }
}

impl<T: FieldData> HasJar for InputField<T> {
    open spec fn spec_jar_key() -> u64 {
        T::INGREDIENT_KEY
    }

    open spec fn spec_jar_ingredients() -> u32 {
        1
    }

    fn jar_key() -> (key: u64) {
        T::INGREDIENT_KEY
    }

    fn jar_ingredients() -> (count: u32) {
        1
    }
}

impl<T> Update for InputField<T> {
    /// Replaces a handle that names a different value.
    fn maybe_update(current: &mut Self, new_value: Self) -> (changed: bool)
        ensures
            *final(current) == new_value,
            changed == (old(current).spec_id() != new_value.spec_id()),
    {
        if current.id == new_value.id {
            false
        } else {
            *current = new_value;
            true
        }
    }
}

/// A value created in revision `revision` has one stamp per tracked field,
/// and every one of them is `revision`: no field of a new value claims to
/// have changed before the value existed.
pub proof fn lemma_new_fields_stamped_with_creation_revision(
    stamps: Seq<Seq<u64>>,
    count: nat,
    revision: u64,
)
    ensures
        ({
            let after = stamps.push(fresh_revisions(count, revision));
            &&& after[stamps.len() as int].len() == count
            &&& forall|k: int| 0 <= k < count ==> #[trigger] after[stamps.len() as int][k] == revision
        }),
{
}

/// The projection of tracked field `k` of a value is owned by the
/// ingredient and names field `k`: its dependency stamp is that field's
/// own stamp.
pub proof fn lemma_projection_names_its_field<T: TrackedData>(
    table: TrackedIngredient<T>,
    id: Id,
    k: nat,
)
    requires
        table.wf(),
        table.contains_id(id),
        k < tracked_field_count::<T>(),
    ensures
        table.owns_projection(field_projection(table.spec_index(), id, k)),
        table.field_of(field_projection(table.spec_index(), id, k)) == k,
{
}

/// Direct tracked fields receive independent dependency revisions: an
/// update stamps a tracked field with its revision exactly when that field
/// changed, leaves the stamp of every unchanged field as it was, and
/// touches no other value's stamps.
pub proof fn lemma_tracked_fields_independent(
    stamps: Seq<Seq<u64>>,
    i: int,
    changed: Seq<bool>,
    revision: u64,
    j: int,
    k: int,
)
    requires
        0 <= i < stamps.len(),
        0 <= j < stamps.len(),
        changed.len() == stamps[i].len(),
        0 <= k < stamps[j].len(),
    ensures
        ({
            let after = stamps.update(i, updated_revisions(stamps[i], changed, revision));
            &&& after.len() == stamps.len()
            &&& after[j].len() == stamps[j].len()
            &&& j == i && changed[k] ==> after[j][k] == revision
            &&& !(j == i && changed[k]) ==> after[j][k] == stamps[j][k]
        }),
{
}

/// Inputs are never interned: a new input gets an id past every earlier
/// one, even for equal data, and every earlier input keeps its value and
/// its stamps.
pub proof fn lemma_new_inputs_get_fresh_ids<T>(
    old: InputIngredient<T>,
    value: T,
    revision: u64,
    durability: Durability,
    new: InputIngredient<T>,
    id: Id,
    earlier: Id,
)
    requires
        old.wf(),
        id.spec_index() == old.spec_values().len(),
        new.spec_values() == old.spec_values().push(value),
        new.spec_revisions() == old.spec_revisions().push(revision),
        new.spec_durabilities() == old.spec_durabilities().push(durability),
        old.contains_id(earlier),
    ensures
        id != earlier,
        new.contains_id(id),
        new.spec_values()[earlier.spec_index() as int] == old.spec_values()[earlier.spec_index() as int],
        new.spec_revisions()[earlier.spec_index() as int] == old.spec_revisions()[earlier.spec_index() as int],
        new.spec_durabilities()[earlier.spec_index() as int]
            == old.spec_durabilities()[earlier.spec_index() as int],
{
}

/// A read after a write gives back what was written, with the stamp of
/// the write; every other value keeps its value and its stamp, so changing
/// one input field invalidates nothing that depends only on others.
pub proof fn lemma_read_after_write<T>(
    old: InputIngredient<T>,
    id: Id,
    value: T,
    revision: u64,
    durability: Durability,
    new: InputIngredient<T>,
)
    requires
        old.wf(),
        old.contains_id(id),
        InputIngredient::replaced(old, id, value, revision, durability, new),
    ensures
        new.contains_id(id),
        new.spec_values()[id.spec_index() as int] == value,
        new.spec_revisions()[id.spec_index() as int] == revision,
        new.spec_durabilities()[id.spec_index() as int] == durability,
        forall|other: Id|
            old.contains_id(other) && other != id ==> {
                &&& new.spec_values()[other.spec_index() as int] == old.spec_values()[other.spec_index() as int]
                &&& new.spec_revisions()[other.spec_index() as int] == old.spec_revisions()[other.spec_index() as int]
                &&& new.spec_durabilities()[other.spec_index() as int]
                    == old.spec_durabilities()[other.spec_index() as int]
            },
{
}

/// The tracked fields of one value, and the same field of different
/// values, are bound to different projections, each a successor of the
/// ingredient that stores the values.
pub proof fn lemma_field_projections_distinct(
    ingredient_index: IngredientIndex,
    a: Id,
    b: Id,
    j: nat,
    k: nat,
)
    requires
        ingredient_index.spec_index() + 1 + j <= u32::MAX,
        ingredient_index.spec_index() + 1 + k <= u32::MAX,
    ensures
        field_projection(ingredient_index, a, j) == field_projection(ingredient_index, b, k) <==> (a
            == b && j == k),
        field_projection(ingredient_index, a, j).spec_ingredient_index().spec_index()
            == ingredient_index.spec_index() + 1 + j,
        field_projection(ingredient_index, a, j).spec_key_index() == a,
{
    let pa = field_projection(ingredient_index, a, j);
    let pb = field_projection(ingredient_index, b, k);
    let ia = IngredientIndex::spec_new((ingredient_index.spec_index() + 1 + j) as u32);
    let ib = IngredientIndex::spec_new((ingredient_index.spec_index() + 1 + k) as u32);
    assert(pa.spec_ingredient_index() == ia);
    assert(pb.spec_ingredient_index() == ib);
    assert(ia.spec_index() == ingredient_index.spec_index() + 1 + j);
    assert(ib.spec_index() == ingredient_index.spec_index() + 1 + k);
    if pa == pb {
        assert(pa.spec_key_index() == pb.spec_key_index());
    }
}

} // verus!
