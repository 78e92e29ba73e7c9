use salsa_generic::database_impl::DatabaseImpl;
use salsa_generic::generic::{InternedData, Interned};
use salsa_generic::{Durability, Id, IngredientIndex};

#[derive(Clone, PartialEq)]
struct Text(String);

impl InternedData for Text {
    const INGREDIENT_KEY: u64 = 9;
    const TYPE_PATH: &'static str = "database::Text";
    fn same_data(&self, other: &Self) -> bool {
        self == other
    }
    fn to_owned_data(&self) -> Self {
        self.clone()
    }
}

#[test]
fn a_new_database_starts_in_revision_one_without_jars() {
    let db = DatabaseImpl::new();
    assert_eq!(db.storage().current_revision(), 1);
    assert!(db.storage().lookup_jar(9).is_none());
    assert!(db.storage().reads().is_empty());
}

#[test]
fn registering_a_jar_twice_registers_it_once() {
    let db = DatabaseImpl::builder()
        .ingredient::<Interned<Text>>()
        .ingredient::<Interned<Text>>()
        .build();
    let jar = db.storage().lookup_jar(9).unwrap();
    assert_eq!(jar.first, IngredientIndex::from_index(0));
    assert_eq!(jar.count, 1);
}

#[test]
fn successors_follow_the_ingredient() {
    let index = IngredientIndex::from_index(4);
    assert_eq!(index.successor(0).as_u32(), 5);
    assert_eq!(index.successor(2).as_u32(), 7);
}

#[test]
fn default_durability_is_low() {
    assert_eq!(Durability::default(), Durability::Low);
    assert_eq!(Id::from_index(3).index(), 3);
}
