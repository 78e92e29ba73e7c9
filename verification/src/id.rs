//! Identifiers shared by every ingredient: ids, ingredient indices,
//! database keys and durabilities.
use vstd::prelude::*;

verus! {

/// The facts that connect the identifiers to their raw values.
pub broadcast group group_id_facts {
    Id::lemma_spec_new_index,
    Id::lemma_index_injective,
    IngredientIndex::lemma_spec_new_index,
    IngredientIndex::lemma_index_injective,
    DatabaseKeyIndex::lemma_spec_new_parts,
}

/// The identity of one value stored in an ingredient.
#[derive(Clone, Copy, PartialEq, Eq, Structural, Debug, Hash)]
pub struct Id {
    index: u32,
}

impl Id {
    /// The position of the value inside its ingredient.
    pub closed spec fn spec_index(self) -> u32 {
        self.index
    }

    /// The id of the value at `index`.
    pub closed spec fn spec_new(index: u32) -> Id {
        Id { index }
    }

    pub broadcast proof fn lemma_spec_new_index(index: u32)
        ensures
            #[trigger] Id::spec_new(index).spec_index() == index,
    {
    }

    /// Two ids are equal exactly when their indices are.
    pub broadcast proof fn lemma_index_injective(a: Id, b: Id)
        ensures
            #[trigger] a.spec_index() == #[trigger] b.spec_index() ==> a == b,
    {
    }

    /// Creates the id of the value at `index`.
    pub fn from_index(index: u32) -> (id: Id)
        ensures
            id == Id::spec_new(index),
            id.spec_index() == index,
    {
        Id { index }
    }

    /// Returns the position of the value inside its ingredient.
    pub fn index(self) -> (index: u32)
        ensures
            index == self.spec_index(),
    {
        self.index
    }
}

/// The index of an ingredient inside a database.
#[derive(Clone, Copy, PartialEq, Eq, Structural, Debug, Hash)]
pub struct IngredientIndex {
    index: u32,
}

impl IngredientIndex {
    pub closed spec fn spec_index(self) -> u32 {
        self.index
    }

    /// The ingredient index whose raw value is `index`.
    pub closed spec fn spec_new(index: u32) -> IngredientIndex {
        IngredientIndex { index }
    }

    pub broadcast proof fn lemma_spec_new_index(index: u32)
        ensures
            #[trigger] IngredientIndex::spec_new(index).spec_index() == index,
    {
    }

    /// Creates an ingredient index from its raw value.
    pub fn from_index(index: u32) -> (r: IngredientIndex)
        ensures
            r == IngredientIndex::spec_new(index),
            r.spec_index() == index,
    {
        IngredientIndex { index }
    }

    /// Returns the raw value of this index.
    pub fn as_u32(self) -> (r: u32)
        ensures
            r == self.spec_index(),
    {
        self.index
    }

    /// Two ingredient indices are equal exactly when their raw values are.
    pub broadcast proof fn lemma_index_injective(a: IngredientIndex, b: IngredientIndex)
        ensures
            #[trigger] a.spec_index() == #[trigger] b.spec_index() ==> a == b,
    {
    }

    /// The index of the ingredient registered `offset + 1` places after this one.
    pub open spec fn spec_successor(self, offset: usize) -> int {
        self.spec_index() + 1 + offset
    }

    /// Returns the ingredient registered `offset + 1` places after this
    /// one, such as the projection ingredient of a tracked field.
    pub fn successor(self, offset: usize) -> (r: IngredientIndex)
        requires
            self.spec_successor(offset) <= u32::MAX,
        ensures
            r.spec_index() == self.spec_successor(offset),
            r == IngredientIndex::spec_new(self.spec_successor(offset) as u32),
    {
        IngredientIndex { index: self.index + 1 + offset as u32 }
    }
}

/// The key of one value of one ingredient: what a query depends on.
#[derive(Clone, Copy, PartialEq, Eq, Structural, Debug, Hash)]
pub struct DatabaseKeyIndex {
    ingredient_index: IngredientIndex,
    key_index: Id,
}

impl DatabaseKeyIndex {
    pub closed spec fn spec_ingredient_index(self) -> IngredientIndex {
        self.ingredient_index
    }

    pub closed spec fn spec_key_index(self) -> Id {
        self.key_index
    }

    /// The key of value `key_index` of ingredient `ingredient_index`.
    pub closed spec fn spec_new(ingredient_index: IngredientIndex, key_index: Id) -> DatabaseKeyIndex {
        DatabaseKeyIndex { ingredient_index, key_index }
    }

    pub broadcast proof fn lemma_spec_new_parts(ingredient_index: IngredientIndex, key_index: Id)
        ensures
            #[trigger] DatabaseKeyIndex::spec_new(ingredient_index, key_index).spec_ingredient_index()
                == ingredient_index,
            DatabaseKeyIndex::spec_new(ingredient_index, key_index).spec_key_index() == key_index,
    {
    }

    /// Creates the key of value `key_index` of ingredient `ingredient_index`.
    pub fn new(ingredient_index: IngredientIndex, key_index: Id) -> (r: DatabaseKeyIndex)
        ensures
            r == DatabaseKeyIndex::spec_new(ingredient_index, key_index),
            r.spec_ingredient_index() == ingredient_index,
            r.spec_key_index() == key_index,
    {
        DatabaseKeyIndex { ingredient_index, key_index }
    }

    /// Returns the ingredient part of this key.
    pub fn ingredient_index(self) -> (r: IngredientIndex)
        ensures
            r == self.spec_ingredient_index(),
    {
        self.ingredient_index
    }

    /// Returns the value part of this key.
    pub fn key_index(self) -> (r: Id)
        ensures
            r == self.spec_key_index(),
    {
        self.key_index
    }
}

/// How rarely a value is expected to change.
#[derive(Clone, Copy, PartialEq, Eq, Structural, Debug, Hash)]
pub enum Durability {
    Low,
    Medium,
    High,
}

impl Default for Durability {
    /// Values are assumed to change often unless stated otherwise.
    fn default() -> (d: Durability)
        ensures
            d == Durability::Low,
    {
        Durability::Low
    }
}

/// A value that is identified by an [`Id`].
pub trait AsId {
    /// The id of this value.
    spec fn spec_id(&self) -> Id;

    fn as_id(&self) -> (id: Id)
        ensures
            id == self.spec_id(),
    ;
}

/// A value that can be recreated from its [`Id`].
pub trait FromId: AsId + Sized {
    fn from_id(id: Id) -> (value: Self)
        ensures
            value.spec_id() == id,
    ;
}

} // verus!
