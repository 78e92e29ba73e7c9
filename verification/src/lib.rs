//! Verified building blocks of generic, macro-free Salsa structs.
pub mod debug_name;
pub mod id;
pub mod eviction;
pub mod volatile;
pub mod storage;
pub mod database_impl;
pub mod update;
pub mod generic;
pub mod struct_id;
pub mod derive_rules;
pub mod struct_derive;
pub mod struct_rules;

pub use debug_name::last_path_component;
pub use eviction::{EvictionPolicy, HasCapacity};
pub use id::{AsId, DatabaseKeyIndex, Durability, FromId, Id, IngredientIndex};
pub use volatile::Volatile;
