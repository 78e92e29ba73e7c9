use salsa_generic::derive_rules::{
    tracked_data_impl, DataField, DataImpl, FieldType, UpdateStrategy,
};
use salsa_generic::struct_rules::{
    fields_heap_size_attrs, interned_rules, tracked_struct_rules, FieldAttr, FieldDecl,
    PersistArgs, SalsaField, SalsaStruct, StructArgs, StructAttr, StructKindRules, UnknownAttr,
};

fn plain() -> FieldType {
    FieldType {
        mentions_tracked_field: false,
        is_tracked_field: false,
        mentions_input_field: false,
        is_input_field: false,
    }
}

fn tracked_field_ty() -> FieldType {
    FieldType {
        mentions_tracked_field: true,
        is_tracked_field: true,
        mentions_input_field: false,
        is_input_field: false,
    }
}

fn input() -> FieldType {
    FieldType {
        mentions_tracked_field: false,
        is_tracked_field: false,
        mentions_input_field: true,
        is_input_field: true,
    }
}

fn decl(name: &str, ty: FieldType, attrs: Vec<FieldAttr>) -> FieldDecl {
    let (ty_text, wrapped_ty) = if ty.is_tracked_field {
        ("salsa::TrackedField<u32>", Some("u32".to_string()))
    } else if ty.is_input_field {
        ("salsa::InputField<bool>", Some("bool".to_string()))
    } else {
        ("u32", None)
    };
    FieldDecl {
        name: name.to_string(),
        ty,
        ty_text: ty_text.to_string(),
        wrapped_ty,
        attrs,
    }
}

fn args() -> StructArgs {
    StructArgs {
        bare: false,
        fields_name: None,
        debug: false,
        no_lifetime: false,
        non_update_types: false,
        constructor_name: None,
        persist: None,
    }
}

fn err<T>(r: Result<T, String>) -> String {
    match r {
        Ok(_) => panic!("expected an error"),
        Err(e) => e,
    }
}

fn all_allowed() -> StructKindRules {
    StructKindRules {
        kind: "input",
        allow_maybe_update: true,
        allow_tracked: true,
        allow_default: true,
    }
}

#[test]
fn field_defaults() {
    let f = SalsaField::new(&decl("text", plain(), Vec::new())).unwrap();
    assert_eq!(f.name, "text");
    assert_eq!(f.returns, "clone");
    assert_eq!(f.get_name, "text");
    assert_eq!(f.set_name, "set_text");
    assert!(!f.has_tracked_attr && !f.has_default_attr && !f.has_no_eq_attr);
    assert!(!f.has_maybe_update_attr);
    assert!(f.unknown_attrs.is_empty());
    assert_eq!(f.options(), ("clone".to_string(), false));
}

#[test]
fn field_attributes_are_read_in_order() {
    let attrs = vec![
        FieldAttr::Returns("copy".to_string()),
        FieldAttr::Getter("first".to_string()),
        FieldAttr::Other(1),
        FieldAttr::Default,
        FieldAttr::Returns("ref".to_string()),
        FieldAttr::Getter("second".to_string()),
        FieldAttr::Setter("store".to_string()),
        FieldAttr::Other(2),
        FieldAttr::NoEq,
        FieldAttr::TrackedAttr,
        FieldAttr::MaybeUpdate,
    ];
    let f = SalsaField::new(&decl("value", plain(), attrs)).unwrap();
    assert_eq!(f.returns, "ref");
    assert_eq!(f.get_name, "second");
    assert_eq!(f.set_name, "store");
    assert!(f.has_default_attr && f.has_no_eq_attr && f.has_tracked_attr);
    assert!(f.has_maybe_update_attr);
    assert_eq!(
        f.unknown_attrs,
        vec![
            UnknownAttr {
                position: 2,
                path_segments: 1
            },
            UnknownAttr {
                position: 7,
                path_segments: 2
            },
        ]
    );
    assert_eq!(f.storage_attrs(), vec![2]);
    assert_eq!(f.options(), ("ref".to_string(), true));
}

#[test]
fn banned_field_names_are_rejected() {
    assert_eq!(
        err(SalsaField::new(&decl("new", plain(), Vec::new()))),
        "the field name `new` is disallowed in salsa structs"
    );
    assert_eq!(
        err(SalsaField::new(&decl("from", plain(), Vec::new()))),
        "the field name `from` is disallowed in salsa structs"
    );
}

#[test]
fn unknown_return_mode_is_rejected() {
    let attrs = vec![FieldAttr::Returns("move".to_string())];
    assert_eq!(
        err(SalsaField::new(&decl("value", plain(), attrs))),
        "Invalid return mode. Allowed modes are: [\"copy\", \"clone\", \"ref\", \"deref\", \"as_ref\", \"as_deref\"]"
    );
    for mode in ["copy", "clone", "ref", "deref", "as_ref", "as_deref"] {
        let attrs = vec![FieldAttr::Returns(mode.to_string())];
        assert!(SalsaField::new(&decl("value", plain(), attrs)).is_ok());
    }
}

#[test]
fn bare_mode_needs_a_fields_name() {
    let mut a = args();
    a.bare = true;
    let decls = vec![decl("text", plain(), Vec::new())];
    assert_eq!(
        err(SalsaStruct::new(interned_rules(), a, Some(&decls))),
        "`fields = Name` is required in bare mode"
    );
    let mut a = args();
    a.bare = true;
    a.fields_name = Some("TextFields".to_string());
    assert!(SalsaStruct::new(interned_rules(), a, Some(&decls)).is_ok());
}

#[test]
fn unnamed_fields_are_rejected() {
    assert_eq!(
        err(SalsaStruct::new(interned_rules(), args(), None)),
        "must have named fields for a struct"
    );
}

#[test]
fn field_errors_come_before_kind_errors() {
    let decls = vec![
        decl("a", plain(), vec![FieldAttr::MaybeUpdate]),
        decl("new", plain(), Vec::new()),
    ];
    assert_eq!(
        err(SalsaStruct::new(interned_rules(), args(), Some(&decls))),
        "the field name `new` is disallowed in salsa structs"
    );
}

#[test]
fn interned_structs_disallow_field_options() {
    let decls = vec![
        decl("a", plain(), vec![FieldAttr::Default]),
        decl("b", plain(), vec![FieldAttr::TrackedAttr]),
        decl("c", plain(), vec![FieldAttr::MaybeUpdate]),
    ];
    assert_eq!(
        err(SalsaStruct::new(interned_rules(), args(), Some(&decls))),
        "`#[maybe_update]` cannot be used with `#[salsa::interned]`"
    );
    let decls = vec![
        decl("a", plain(), vec![FieldAttr::Default]),
        decl("b", plain(), vec![FieldAttr::TrackedAttr]),
    ];
    let rules = tracked_struct_rules();
    assert_eq!(
        err(SalsaStruct::new(interned_rules(), args(), Some(&decls))),
        format!("`#[{}]` cannot be used with `#[salsa::interned]`", rules.kind)
    );
    let decls = vec![decl("a", plain(), vec![FieldAttr::Default])];
    assert_eq!(
        err(SalsaStruct::new(interned_rules(), args(), Some(&decls))),
        "`#[default]` cannot be used with `#[salsa::interned]`"
    );
}

#[test]
fn tracked_structs_allow_maybe_update_only() {
    let decls = vec![decl("a", plain(), vec![FieldAttr::MaybeUpdate])];
    assert!(SalsaStruct::new(tracked_struct_rules(), args(), Some(&decls)).is_ok());
    let rules = tracked_struct_rules();
    let decls = vec![decl("a", plain(), vec![FieldAttr::Default])];
    assert_eq!(
        err(SalsaStruct::new(rules, args(), Some(&decls))),
        format!("`#[default]` cannot be used with `#[salsa::{}]`", rules.kind)
    );
    let decls = vec![decl("a", plain(), vec![FieldAttr::TrackedAttr])];
    assert_eq!(
        err(SalsaStruct::new(rules, args(), Some(&decls))),
        format!("`#[{}]` cannot be used with `#[salsa::{}]`", rules.kind, rules.kind)
    );
}

#[test]
fn struct_queries() {
    let decls = vec![
        decl("kind", plain(), Vec::new()),
        decl("ty", tracked_field_ty(), Vec::new()),
        decl("debug", input(), vec![FieldAttr::Default]),
        decl("span", tracked_field_ty(), vec![FieldAttr::Getter("fields".to_string())]),
    ];
    let mut a = args();
    a.debug = true;
    a.no_lifetime = true;
    let s = SalsaStruct::new(all_allowed(), a, Some(&decls)).unwrap();
    assert_eq!(s.num_fields(), 4);
    assert!(s.generate_debug_impl());
    assert!(!s.generate_lifetime());
    assert_eq!(s.tracked_fields_iter(), vec![1, 3]);
    assert_eq!(s.untracked_fields_iter(), vec![0, 2]);
    assert_eq!(s.tracked_flags(), vec![false, true, false, true]);
    assert_eq!(s.input_flags(), vec![false, false, true, false]);
    assert_eq!(s.required_fields(), vec![0, 1, 3]);
    assert_eq!(s.fields_method_name(), "salsa_fields");
    assert_eq!(
        s.field_durability_ids(),
        vec![
            "kind_durability".to_string(),
            "ty_durability".to_string(),
            "debug_durability".to_string(),
            "span_durability".to_string(),
        ]
    );
}

#[test]
fn fields_method_is_fields_without_a_clash() {
    let decls = vec![decl("text", plain(), Vec::new())];
    let s = SalsaStruct::new(interned_rules(), args(), Some(&decls)).unwrap();
    assert_eq!(s.fields_method_name(), "fields");
    assert_eq!(s.constructor_name(), "new");
    assert!(s.fields_doc_hidden());
}

#[test]
fn constructor_and_persistence_options() {
    let mut a = args();
    a.constructor_name = Some("intern".to_string());
    a.fields_name = Some("TextFields".to_string());
    a.persist = Some(PersistArgs {
        serialize_fn: Some("my::ser".to_string()),
        deserialize_fn: None,
    });
    let decls = vec![decl("text", plain(), Vec::new())];
    let s = SalsaStruct::new(interned_rules(), a, Some(&decls)).unwrap();
    assert_eq!(s.constructor_name(), "intern");
    assert!(!s.fields_doc_hidden());
    assert_eq!(s.serialize_fn(), Some("my::ser".to_string()));
    assert_eq!(
        s.deserialize_fn(),
        Some("serde::Deserialize::deserialize".to_string())
    );
    assert_eq!(s.fields_serde_impls(), (false, true));
}

#[test]
fn hidden_fields_get_both_serde_impls_when_persisted() {
    let mut a = args();
    a.persist = Some(PersistArgs {
        serialize_fn: Some("my::ser".to_string()),
        deserialize_fn: Some("my::de".to_string()),
    });
    let decls = vec![decl("text", plain(), Vec::new())];
    let s = SalsaStruct::new(interned_rules(), a, Some(&decls)).unwrap();
    assert_eq!(s.fields_serde_impls(), (true, true));
    let s = SalsaStruct::new(interned_rules(), args(), Some(&decls)).unwrap();
    assert_eq!(s.fields_serde_impls(), (false, false));
    assert_eq!(s.serialize_fn(), None);
    assert_eq!(s.deserialize_fn(), None);
}

#[test]
fn storage_field_attrs_keep_single_segment_paths() {
    let decls = vec![
        decl("a", plain(), vec![FieldAttr::Other(2), FieldAttr::Other(1)]),
        decl("b", plain(), vec![FieldAttr::Other(1), FieldAttr::NoEq]),
    ];
    let s = SalsaStruct::new(tracked_struct_rules(), args(), Some(&decls)).unwrap();
    assert_eq!(s.storage_field_attrs(), vec![vec![1], vec![0]]);
}

#[test]
fn tracked_struct_plan_declares_accepted_fields() {
    let decls = vec![
        decl("kind", plain(), vec![FieldAttr::NoEq, FieldAttr::MaybeUpdate]),
        decl("ty", tracked_field_ty(), vec![FieldAttr::MaybeUpdate]),
        decl("span", tracked_field_ty(), Vec::new()),
    ];
    let mut a = args();
    a.bare = true;
    a.fields_name = Some("NodeFields".to_string());
    let s = SalsaStruct::new(tracked_struct_rules(), a, Some(&decls)).unwrap();
    let plan = s.tracked_struct_plan();
    assert_eq!(plan.field_ids, vec!["kind".to_string(), "ty".to_string(), "span".to_string()]);
    assert_eq!(plan.tracked_fields, vec![1, 2]);
    assert_eq!(plan.untracked_fields, vec![0]);
    assert!(!plan.generate_methods);
    assert!(!plan.generate_debug_impl);
    assert_eq!(plan.fields_method, "fields");
    assert_eq!(plan.constructor, "new");
    assert_eq!(
        plan.data_fields[0],
        DataField {
            ty: plain(),
            no_eq: true,
            maybe_update: false,
            unsupported_option: false
        }
    );
    match tracked_data_impl(true, &plan.data_fields) {
        Ok(DataImpl::TrackedFields(layout)) => {
            assert_eq!(layout.tracked_fields, plan.tracked_fields);
            assert_eq!(layout.untracked, plan.untracked_fields);
            assert_eq!(
                layout.tracked_updates,
                vec![UpdateStrategy::Custom, UpdateStrategy::Dispatch]
            );
            assert_eq!(layout.untracked_updates, vec![UpdateStrategy::AlwaysUpdate]);
        }
        _ => panic!("the generated fields must be accepted"),
    }
}

#[test]
fn interned_plan_follows_the_arguments() {
    let decls = vec![decl("text", plain(), Vec::new())];
    let mut a = args();
    a.no_lifetime = true;
    a.non_update_types = true;
    a.debug = true;
    let s = SalsaStruct::new(interned_rules(), a, Some(&decls)).unwrap();
    let plan = s.interned_plan();
    assert!(!plan.has_lifetime);
    assert!(!plan.assert_types_are_update);
    assert!(plan.generate_debug_impl);
    assert!(plan.generate_methods);
    assert_eq!(plan.fields_method, "fields");
    assert_eq!(plan.serde_impls, (false, false));
    let s = SalsaStruct::new(interned_rules(), args(), Some(&decls)).unwrap();
    let plan = s.interned_plan();
    assert!(plan.has_lifetime);
    assert!(plan.assert_types_are_update);
}

#[test]
fn heap_size_attributes_are_copied_to_the_fields_struct() {
    let attrs = vec![
        StructAttr {
            path: "derive".to_string(),
            tokens: "derive(Clone, get_size2::GetSize)".to_string(),
        },
        StructAttr {
            path: "derive".to_string(),
            tokens: "derive(Clone, Debug)".to_string(),
        },
        StructAttr {
            path: "cfg_attr".to_string(),
            tokens: "cfg_attr(feature = \"get-size\", derive(get_size2::GetSize))".to_string(),
        },
        StructAttr {
            path: "doc".to_string(),
            tokens: "doc = \"get_size2\"".to_string(),
        },
        StructAttr {
            path: "derive".to_string(),
            tokens: "get_size".to_string(),
        },
    ];
    assert_eq!(fields_heap_size_attrs(&attrs), vec![0, 2]);
    assert_eq!(fields_heap_size_attrs(&Vec::new()), Vec::<usize>::new());
}

#[test]
fn tracked_struct_plan_exposes_tracked_fields_as_their_inner_type() {
    let decls = vec![
        decl("key", plain(), Vec::new()),
        decl("value", tracked_field_ty(), Vec::new()),
    ];
    let mut a = args();
    a.fields_name = Some("MacroTrackedFields".to_string());
    let s = SalsaStruct::new(tracked_struct_rules(), a, Some(&decls)).unwrap();
    let plan = s.tracked_struct_plan();
    assert_eq!(plan.field_ids, vec!["key".to_string(), "value".to_string()]);
    assert_eq!(
        plan.storage_tys,
        vec!["u32".to_string(), "salsa::TrackedField<u32>".to_string()]
    );
    assert_eq!(plan.value_tys, vec!["u32".to_string(), "u32".to_string()]);
    assert_eq!(plan.tracked_fields, vec![1]);
    assert_eq!(plan.untracked_fields, vec![0]);
}

#[test]
fn input_fields_keep_their_declared_type_as_value_type() {
    let decls = vec![decl("debug", input(), Vec::new())];
    let s = SalsaStruct::new(all_allowed(), args(), Some(&decls)).unwrap();
    assert_eq!(s.value_tys(), vec!["salsa::InputField<bool>".to_string()]);
    assert_eq!(s.field_tys(), vec!["salsa::InputField<bool>".to_string()]);
}
