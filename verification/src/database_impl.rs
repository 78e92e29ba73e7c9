//! The default database implementation.
use vstd::prelude::*;

use crate::storage::{HasJar, JarEntry, Storage, StorageBuilder, TrackedRead, has_jar, register_jar};

verus! {

/// Default database implementation that you can use if you don't require
/// any custom user data.
pub struct DatabaseImpl {
    storage: Storage,
}

impl DatabaseImpl {
    /// The state of this database.
    pub closed spec fn spec_storage(&self) -> Storage {
        self.storage
    }

    pub open spec fn wf(&self) -> bool {
        self.spec_storage().wf()
    }

    /// Create a new database; equivalent to `Self::default`.
    pub fn new() -> (db: DatabaseImpl)
        ensures
            db.wf(),
            db.spec_storage().spec_revision() == 1,
            db.spec_storage().spec_jars() == Seq::<JarEntry>::empty(),
            db.spec_storage().spec_reads() == Seq::<TrackedRead>::empty(),
    {
        Self::default()
    }

    /// Returns a builder that supports explicit ingredient registration.
    pub fn builder() -> (b: DatabaseImplBuilder)
        ensures
            b.wf(),
            b.spec_storage().spec_jars() == Seq::<JarEntry>::empty(),
            b.spec_storage().spec_next_index() == 0,
    {
        DatabaseImplBuilder { storage: StorageBuilder::new() }
    }

    /// Returns the state of this database.
    pub fn storage(&self) -> (s: &Storage)
        ensures
            *s == self.spec_storage(),
    {
        &self.storage
    }
}

impl DatabaseImpl {
    /// Returns the state of this database for an update.
    pub fn storage_mut(&mut self) -> (s: &mut Storage)
        ensures
            *s == old(self).spec_storage(),
            final(self).spec_storage() == *final(s),
    {
        &mut self.storage
    }
}

impl Default for DatabaseImpl {
    /// A database with no registered jars, in revision one.
    fn default() -> (db: DatabaseImpl)
        ensures
            db.wf(),
            db.spec_storage().spec_revision() == 1,
            db.spec_storage().spec_jars() == Seq::<JarEntry>::empty(),
            db.spec_storage().spec_reads() == Seq::<TrackedRead>::empty(),
    {
        DatabaseImpl { storage: StorageBuilder::new().build() }
    }
}

/// Builder for the default database implementation.
pub struct DatabaseImplBuilder {
    storage: StorageBuilder,
}

impl DatabaseImplBuilder {
    /// The jars collected so far.
    pub closed spec fn spec_storage(&self) -> StorageBuilder {
        self.storage
    }

    pub open spec fn wf(&self) -> bool {
        self.spec_storage().wf()
    }

    /// Manually registers the jar of ingredients of `I`, once.
    ///
    /// This is required for generic structs, which are not registered
    /// automatically.
    pub fn ingredient<I: HasJar>(self) -> (b: DatabaseImplBuilder)
        requires
            self.wf(),
            self.spec_storage().spec_next_index() + I::spec_jar_ingredients() <= u32::MAX,
        ensures
            b.wf(),
            b.spec_storage().spec_jars() == register_jar(
                self.spec_storage().spec_jars(),
                self.spec_storage().spec_next_index(),
                I::spec_jar_key(),
                I::spec_jar_ingredients(),
            ),
            b.spec_storage().spec_next_index() == if has_jar(
                self.spec_storage().spec_jars(),
                I::spec_jar_key(),
            ) {
                self.spec_storage().spec_next_index() as int
            } else {
                self.spec_storage().spec_next_index() + I::spec_jar_ingredients()
            },
            !has_jar(self.spec_storage().spec_jars(), I::spec_jar_key()) ==> b.spec_storage().spec_jars().last()
                == (JarEntry {
                key: I::spec_jar_key(),
                first: crate::id::IngredientIndex::spec_new(self.spec_storage().spec_next_index()),
                count: I::spec_jar_ingredients(),
            }),
    {
        let key = I::jar_key();
        let count = I::jar_ingredients();
        DatabaseImplBuilder { storage: self.storage.jar(key, count) }
    }

    /// Builds the database.
    pub fn build(self) -> (db: DatabaseImpl)
        requires
            self.wf(),
        ensures
            db.wf(),
            db.spec_storage().spec_revision() == 1,
            db.spec_storage().spec_jars() == self.spec_storage().spec_jars(),
            db.spec_storage().spec_reads() == Seq::<TrackedRead>::empty(),
    {
        DatabaseImpl { storage: self.storage.build() }
    }
}

} // verus!
