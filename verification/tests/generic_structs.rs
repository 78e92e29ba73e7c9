use salsa_generic::update::Update;
use std::cell::Cell;
use std::collections::hash_map::DefaultHasher;
use std::hash::{Hash, Hasher};
use salsa_generic::database_impl::DatabaseImpl;
use salsa_generic::generic::{
    generic_ingredient_missing, lookup_generic_ingredient, BorrowedLookup, FieldData, Lookup, Input, InputConfig, InputData, InputDataConfig, InputField,
    InputFieldConfig, Interned, InternedConfig, InternedData, InternedDataConfig, TrackedConfig,
    TrackedData, TrackedDataConfig,
    TrackedField, TrackedHandle,
};
use salsa_generic::storage::TrackedRead;
use salsa_generic::struct_id::{Struct, StructToken};
use salsa_generic::{AsId, DatabaseKeyIndex, Durability, FromId, Id, IngredientIndex};

// ---------------------------------------------------------------- data types

#[derive(Clone, PartialEq, Eq, Debug)]
struct NameData {
    text: String,
}

impl InternedData for NameData {
    const INGREDIENT_KEY: u64 = 1;
    const TYPE_PATH: &'static str = "generic_structs::NameData";
    fn same_data(&self, other: &Self) -> bool {
        self == other
    }
    fn to_owned_data(&self) -> Self {
        self.clone()
    }
}

#[derive(Clone, Copy)]
struct Name(Interned<NameData>);

impl InternedDataConfig for NameData {
    type Struct = Name;
}

impl Struct for Name {
    type Repr = Interned<NameData>;
    fn spec_repr(&self) -> Self::Repr {
        self.0
    }
    fn from_repr(_: StructToken, repr: Self::Repr) -> Self {
        Name(repr)
    }
    fn as_repr(&self) -> &Self::Repr {
        &self.0
    }
}

struct Node {
    kind: u32,
    ty: TrackedField<u32>,
    span: TrackedField<u32>,
}

impl TrackedData for Node {
    const INGREDIENT_KEY: u64 = 2;
    const TYPE_PATH: &'static str = "generic_structs::Node";
    const TRACKED_FIELD_NAMES: &'static [&'static str] = &["ty", "span"];
    fn projection(&self, field: u32) -> Option<DatabaseKeyIndex> {
        match field {
            0 => self.ty.projection(),
            1 => self.span.projection(),
            _ => None,
        }
    }
    fn unbound(self) -> Self {
        Node {
            kind: self.kind,
            ty: self.ty.unbound(),
            span: self.span.unbound(),
        }
    }
    fn tracked_field_differs(&self, other: &Self, field: u32) -> bool {
        match field {
            0 => self.ty != other.ty,
            1 => self.span != other.span,
            _ => false,
        }
    }
    fn untracked_fields_differ(&self, other: &Self) -> bool {
        self.kind != other.kind
    }
    fn bind_tracked_fields(ingredient_index: IngredientIndex, id: Id, fields: &mut Self) {
        fields.ty.bind(ingredient_index, id, 0);
        fields.span.bind(ingredient_index, id, 1);
    }
    fn update_fields(current: &mut Self, new_fields: Self) -> (Vec<bool>, bool) {
        let ty = TrackedField::maybe_update(&mut current.ty, new_fields.ty, replace_if_different);
        let span =
            TrackedField::maybe_update(&mut current.span, new_fields.span, replace_if_different);
        let kind = replace_if_different(&mut current.kind, new_fields.kind);
        (vec![ty, span], kind)
    }
}

fn replace_if_different(current: &mut u32, new_value: u32) -> bool {
    if *current == new_value {
        false
    } else {
        *current = new_value;
        true
    }
}

#[derive(Clone, Copy)]
struct NodeId(TrackedHandle<Node>);

impl TrackedDataConfig for Node {
    type Struct = NodeId;
}

impl Struct for NodeId {
    type Repr = TrackedHandle<Node>;
    fn spec_repr(&self) -> Self::Repr {
        self.0
    }
    fn from_repr(_: StructToken, repr: Self::Repr) -> Self {
        NodeId(repr)
    }
    fn as_repr(&self) -> &Self::Repr {
        &self.0
    }
}

struct Options {
    target: &'static str,
    debug: InputField<Flag>,
}

impl InputData for Options {
    const INGREDIENT_KEY: u64 = 3;
    const TYPE_PATH: &'static str = "generic_structs::Options";
}

#[derive(Clone, Copy, PartialEq, Eq, Debug)]
struct Flag(bool);

impl FieldData for Flag {
    const INGREDIENT_KEY: u64 = 4;
    const TYPE_PATH: &'static str = "generic_structs::Flag";
}

#[derive(Clone, Copy)]
struct OptionsId(Input<Options>);

impl InputDataConfig for Options {
    type Struct = OptionsId;
}

impl Struct for OptionsId {
    type Repr = Input<Options>;
    fn spec_repr(&self) -> Self::Repr {
        self.0
    }
    fn from_repr(_: StructToken, repr: Self::Repr) -> Self {
        OptionsId(repr)
    }
    fn as_repr(&self) -> &Self::Repr {
        &self.0
    }
}

/// A key that stands for `NameData` and counts its conversions.
struct NameKey<'a> {
    text: &'a str,
    conversions: &'a Cell<usize>,
}

impl Lookup<NameData> for NameKey<'_> {
    fn spec_lookup_data(&self) -> NameData {
        NameData { text: self.text.to_owned() }
    }
    fn lookup_eq(&self, data: &NameData) -> bool {
        data.text == self.text
    }
    fn into_owned(self) -> NameData {
        self.conversions.set(self.conversions.get() + 1);
        NameData { text: self.text.to_owned() }
    }
}

#[derive(Clone, PartialEq, Eq, Debug)]
struct TextKey(String);

#[derive(Clone, PartialEq, Eq, Debug)]
struct Text(TextKey);

impl InternedData for Text {
    const INGREDIENT_KEY: u64 = 5;
    const TYPE_PATH: &'static str = "generic_structs::Text";
    fn same_data(&self, other: &Self) -> bool {
        self == other
    }
    fn to_owned_data(&self) -> Self {
        self.clone()
    }
}

impl BorrowedLookup<Text> for TextKey {
    fn spec_borrowed_data(&self) -> Text {
        Text(self.clone())
    }
    fn borrowed_eq(&self, data: &Text) -> bool {
        data.0 == *self
    }
    fn to_owned_data(&self) -> Text {
        Text(self.clone())
    }
}

#[derive(Clone, Copy)]
struct TextHandle(Interned<Text>);

impl InternedDataConfig for Text {
    type Struct = TextHandle;
}

impl Struct for TextHandle {
    type Repr = Interned<Text>;
    fn spec_repr(&self) -> Self::Repr {
        self.0
    }
    fn from_repr(_: StructToken, repr: Self::Repr) -> Self {
        TextHandle(repr)
    }
    fn as_repr(&self) -> &Self::Repr {
        &self.0
    }
}

fn registered_db() -> DatabaseImpl {
    DatabaseImpl::builder()
        .ingredient::<Interned<Text>>()
        .ingredient::<Interned<NameData>>()
        .ingredient::<TrackedHandle<Node>>()
        .ingredient::<Input<Options>>()
        .ingredient::<InputField<Flag>>()
        .build()
}

// --------------------------------------------------------------------- tests

#[test]
fn interning_equal_data_twice_gives_one_handle() {
    let db = registered_db();
    let mut table = InternedConfig::<NameData>::ingredient(db.storage());
    let first: Name = Interned::new(&db, &mut table, NameData { text: "main".to_owned() });
    let second: Name = Interned::new(&db, &mut table, NameData { text: "main".to_owned() });
    let other: Name = Interned::new(&db, &mut table, NameData { text: "other".to_owned() });
    assert_eq!(first.as_id(), second.as_id());
    assert_ne!(first.as_id(), other.as_id());
    assert_eq!(Interned::fields(&table, first).text, "main");
}

#[test]
fn borrowed_and_owned_interning_agree() {
    let db = registered_db();
    let mut table = InternedConfig::<NameData>::ingredient(db.storage());
    let key = NameData { text: "main".to_owned() };
    let owned: Name = Interned::new(&db, &mut table, key.clone());
    let borrowed: Name = Interned::new_borrowed(&db, &mut table, &key);
    assert_eq!(owned.as_id(), borrowed.as_id());
    assert_eq!(Interned::fields(&table, borrowed), &key);
}

#[test]
fn tracked_fields_are_bound_to_their_projections() {
    let db = registered_db();
    let mut table = TrackedConfig::<Node>::ingredient(db.storage());
    let data = Node {
        kind: 22,
        ty: TrackedField::new(&db, 1),
        span: TrackedField::new(&db, 10),
    };
    let node: NodeId = TrackedHandle::new(&db, &mut table, data);
    let fields = TrackedHandle::fields(&table, node);
    assert_eq!(fields.kind, 22);

    let mut db = db;
    let table_ref = &table;
    let fields = TrackedHandle::fields(table_ref, node);
    assert_eq!(*fields.ty.value(&mut db, table_ref), 1);
    assert_eq!(*fields.span.value(&mut db, table_ref), 10);

    let parent = db.storage().lookup_jar(2).unwrap().first;
    let reads = db.storage().reads();
    assert_eq!(reads.len(), 2);
    assert_eq!(
        reads[0].key,
        DatabaseKeyIndex::new(parent.successor(0), node.as_id())
    );
    assert_eq!(
        reads[1].key,
        DatabaseKeyIndex::new(parent.successor(1), node.as_id())
    );
    assert_eq!(reads[0].changed_at, 1);
}

#[test]
fn tracked_field_update_keeps_its_projection() {
    let db = DatabaseImpl::new();
    let mut old = TrackedField::new(&db, Interned::<NameData>::from_id(Id::from_index(3)));
    old.bind(IngredientIndex::from_index(4), Id::from_index(0), 1);
    let bound = old.projection();
    assert_eq!(
        bound,
        Some(DatabaseKeyIndex::new(IngredientIndex::from_index(6), Id::from_index(0)))
    );
    let same = TrackedField::new(&db, Interned::<NameData>::from_id(Id::from_index(3)));
    assert!(!TrackedField::maybe_update(&mut old, same, Interned::maybe_update));
    let other = TrackedField::new(&db, Interned::<NameData>::from_id(Id::from_index(5)));
    assert!(TrackedField::maybe_update(&mut old, other, Interned::maybe_update));
    assert_eq!(old.projection(), bound);
    let again = TrackedField::new(&db, Interned::<NameData>::from_id(Id::from_index(5)));
    let always = |current: &mut Interned<NameData>, new_value: Interned<NameData>| {
        *current = new_value;
        true
    };
    assert!(TrackedField::maybe_update(&mut old, again, always));
    assert_eq!(old.projection(), bound);
}

#[test]
fn setting_one_input_field_leaves_the_other_as_it_was() {
    let mut db = registered_db();
    let mut options_table = InputConfig::<Options>::ingredient(db.storage());
    let mut flags = InputFieldConfig::<Flag>::ingredient(db.storage());

    let debug = InputField::new(&db, &mut flags, Flag(false));
    let verbose = InputField::new(&db, &mut flags, Flag(true));
    let options: OptionsId = Input::new(
        &db,
        &mut options_table,
        Options { target: "wasm", debug },
    );
    assert_eq!(Input::fields(&options_table, options).target, "wasm");

    let old = debug.set(&mut db, &mut flags, Flag(true));
    assert_eq!(old, Flag(false));
    assert_eq!(db.storage().current_revision(), 2);

    assert_eq!(*debug.get(&mut db, &flags), Flag(true));
    assert_eq!(*verbose.get(&mut db, &flags), Flag(true));
    let reads: Vec<TrackedRead> = db.storage().reads().clone();
    assert_eq!(reads.len(), 2);
    assert_eq!(reads[0].changed_at, 2);
    assert_eq!(reads[1].changed_at, 1);
    assert_eq!(reads[0].durability, Durability::Low);
}

#[test]
fn input_fields_can_be_modified_in_place() {
    let mut db = registered_db();
    let mut flags = InputFieldConfig::<Flag>::ingredient(db.storage());
    let debug = InputField::new_with_durability(&db, &mut flags, Flag(false), Durability::High);
    let previous = debug.modify(&mut db, &mut flags, |value| {
        let previous = *value;
        value.0 = !value.0;
        previous
    });
    assert_eq!(previous, Flag(false));
    assert_eq!(*debug.get_untracked(&flags), Flag(true));
    assert!(db.storage().reads().is_empty());
    assert_eq!(*debug.get(&mut db, &flags), Flag(true));
    assert_eq!(db.storage().reads()[0].durability, Durability::High);
    assert_eq!(db.storage().reads()[0].changed_at, 2);
}

#[test]
fn untracked_reads_record_nothing() {
    let db = registered_db();
    let mut options_table = InputConfig::<Options>::ingredient(db.storage());
    let mut flags = InputFieldConfig::<Flag>::ingredient(db.storage());
    let debug = InputField::new(&db, &mut flags, Flag(false));
    let options: OptionsId =
        Input::new(&db, &mut options_table, Options { target: "native", debug });
    let record = Input::fields_untracked(&options_table, options);
    assert_eq!(record.target, "native");
    assert_eq!(*record.debug.get_untracked(&flags), Flag(false));
    assert!(db.storage().reads().is_empty());
}

#[test]
fn unregistered_input_is_reported_by_the_checked_lookup() {
    let db = DatabaseImpl::new();
    let error = match lookup_generic_ingredient(
        db.storage(),
        3,
        1,
        "input",
        InputConfig::<Options>::debug_name(),
        "`#[derive(salsa::InputData)]` on its data type",
    ) {
        Ok(_) => panic!("an unregistered input must not be found"),
        Err(message) => message,
    };
    assert!(error.contains("Salsa input data `Options` is not registered in this database"));
    assert!(error.contains("derive(salsa::InputData)"));
}

#[test]
fn tracked_fields_are_stamped_independently() {
    let mut db = registered_db();
    let mut table = TrackedConfig::<Node>::ingredient(db.storage());
    let data = Node {
        kind: 22,
        ty: TrackedField::new(&db, 1),
        span: TrackedField::new(&db, 10),
    };
    let node: NodeId = TrackedHandle::new(&db, &mut table, data);
    db.storage_mut().new_revision();
    let changed = table.update_struct(
        db.storage(),
        node.as_id(),
        Node {
            kind: 22,
            ty: TrackedField::new(&db, 2),
            span: TrackedField::new(&db, 10),
        },
    );
    assert_eq!(changed, (vec![true, false], false));
    let parent = db.storage().lookup_jar(2).unwrap().first;
    let ty_key = DatabaseKeyIndex::new(parent.successor(0), node.as_id());
    let span_key = DatabaseKeyIndex::new(parent.successor(1), node.as_id());
    assert_eq!(table.dependency_stamp(ty_key), (Durability::Low, 2));
    assert_eq!(table.dependency_stamp(span_key), (Durability::Low, 1));
    let fields = TrackedHandle::fields(&table, node);
    assert_eq!(fields.ty.projection(), Some(ty_key));
    let table_ref = &table;
    let fields = TrackedHandle::fields(table_ref, node);
    assert_eq!(*fields.ty.value(&mut db, table_ref), 2);
    assert_eq!(db.storage().reads()[0].changed_at, 2);
}

#[test]
fn missing_message_names_kind_data_and_declaration() {
    let message = generic_ingredient_missing("tracked", "Node", "a declaration");
    assert_eq!(
        message,
        "Salsa tracked data `Node` is not registered in this database. Declare a declaration \
         and enable inventory, or register its handle with the database builder. A declaration \
         for a different Salsa struct kind does not apply."
    );
}

#[test]
fn debug_names_come_from_the_data_type() {
    assert_eq!(TrackedConfig::<Node>::debug_name(), "Node");
    assert_eq!(InternedConfig::<NameData>::debug_name(), "NameData");
    assert_eq!(InputConfig::<Options>::debug_name(), "Options");
    assert_eq!(InputFieldConfig::<Flag>::debug_name(), "Flag");
}

#[test]
fn handles_compare_by_id() {
    let a = Input::<Options>::from_id(Id::from_index(7));
    let b = Input::<Options>::from_id(Id::from_index(7));
    let c = Input::<Options>::from_id(Id::from_index(8));
    assert!(a.same(&b));
    assert!(!a.same(&c));
}

#[test]
fn setting_an_input_field_with_durability_restamps_it() {
    let mut db = registered_db();
    let mut flags = InputFieldConfig::<Flag>::ingredient(db.storage());
    let debug = InputField::new(&db, &mut flags, Flag(false));
    let old = debug.set_with_durability(&mut db, &mut flags, Flag(true), Durability::High);
    assert_eq!(old, Flag(false));
    assert_eq!(*debug.get(&mut db, &flags), Flag(true));
    assert_eq!(db.storage().reads()[0].durability, Durability::High);
    assert_eq!(db.storage().reads()[0].changed_at, 2);
}

#[test]
fn lookup_key_is_converted_only_on_a_miss() {
    let db = registered_db();
    let mut table = InternedConfig::<NameData>::ingredient(db.storage());
    let conversions = Cell::new(0);
    let first: Name = Interned::new(
        &db,
        &mut table,
        NameKey { text: "main", conversions: &conversions },
    );
    let second: Name = Interned::new(
        &db,
        &mut table,
        NameKey { text: "main", conversions: &conversions },
    );
    assert_eq!(first.as_id(), second.as_id());
    assert_eq!(Interned::fields(&table, first).text, "main");
    assert_eq!(conversions.get(), 1);
}

#[test]
fn interned_standard_borrowed_lookup() {
    let db = registered_db();
    let mut table = InternedConfig::<Text>::ingredient(db.storage());
    let key = TextKey("main".to_owned());
    let first: TextHandle = Interned::new_borrowed(&db, &mut table, &key);
    let second: TextHandle = Interned::new_borrowed(&db, &mut table, &key);
    assert_eq!(first.as_id(), second.as_id());
    assert_eq!(Interned::fields(&table, first).0 .0, "main");
}

#[test]
fn tracked_field_ordinary_traits_delegate_to_the_value() {
    fn hash(value: &impl Hash) -> u64 {
        let mut hasher = DefaultHasher::new();
        value.hash(&mut hasher);
        hasher.finish()
    }

    let db = DatabaseImpl::new();
    let first = TrackedField::new(&db, 1_u32);
    let second = TrackedField::new(&db, 2_u32);

    assert!(first != second);
    assert_ne!(hash(&first), hash(&second));
}

#[test]
fn tracked_field_equality_ignores_the_projection() {
    let db = DatabaseImpl::new();
    let mut bound = TrackedField::new(&db, 7_u32);
    bound.bind(IngredientIndex::from_index(0), Id::from_index(0), 0);
    let unbound = TrackedField::new(&db, 7_u32);
    assert!(bound == unbound);
}
