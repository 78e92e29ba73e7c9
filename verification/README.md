# salsa_generic

Verified building blocks for generic, macro-free Salsa structs, written in
Verus.

- `id`: ids, ingredient indices, database keys and durabilities.
- `storage`, `database_impl`: the database state (revision, registered jars
  of ingredients, the reads of the active query) and its builder.
- `generic`: the generic handles (`TrackedHandle`, `Interned`, `Input`,
  `InputField`, `TrackedField`) and the ingredients that store their data.
- `struct_id`: nominal wrappers around the generic handles.
- `eviction`, `volatile`: the eviction policy trait and the
  generation-based volatile policy, whose read queue is a
  `crossbeam_queue::SegQueue`.
- `debug_name`: short debug names from fully qualified type names.
- `derive_rules`, `struct_derive`, `struct_rules`: the rules by which the
  data derives, the `Struct` derive and the struct attributes accept a
  declaration and decide what to generate, over plain descriptions of the
  declaration.

Public functions state their results in their `ensures`; the laws that
relate several functions are public proof functions named `lemma_*`.
