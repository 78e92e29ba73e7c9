use salsa_generic::derive_rules::{
    erased_data_type, field_update, input_field_jars, tracked_data_impl,
    validate_derived_data, validate_derived_field, DataField, DataImpl, DataItem, DataKind,
    FieldType, GenericParamKind, UpdateStrategy,
};

fn plain_type() -> FieldType {
    FieldType {
        mentions_tracked_field: false,
        is_tracked_field: false,
        mentions_input_field: false,
        is_input_field: false,
    }
}

fn tracked_type() -> FieldType {
    FieldType {
        mentions_tracked_field: true,
        is_tracked_field: true,
        mentions_input_field: false,
        is_input_field: false,
    }
}

fn nested_tracked_type() -> FieldType {
    FieldType {
        mentions_tracked_field: true,
        is_tracked_field: false,
        mentions_input_field: false,
        is_input_field: false,
    }
}

fn input_type() -> FieldType {
    FieldType {
        mentions_tracked_field: false,
        is_tracked_field: false,
        mentions_input_field: true,
        is_input_field: true,
    }
}

fn nested_input_type() -> FieldType {
    FieldType {
        mentions_tracked_field: false,
        is_tracked_field: false,
        mentions_input_field: true,
        is_input_field: false,
    }
}

fn field(ty: FieldType) -> DataField {
    DataField {
        ty,
        no_eq: false,
        maybe_update: false,
        unsupported_option: false,
    }
}

fn err<T>(r: Result<T, String>) -> String {
    match r {
        Ok(_) => panic!("expected an error"),
        Err(e) => e,
    }
}

#[test]
fn tracked_field_is_accepted_directly_in_tracked_data() {
    assert!(validate_derived_field(DataKind::TrackedStruct, tracked_type(), true).is_ok());
    assert!(validate_derived_field(DataKind::TrackedStruct, plain_type(), true).is_ok());
}

#[test]
fn nested_tracked_field_is_rejected() {
    assert_eq!(
        err(validate_derived_field(DataKind::TrackedStruct, nested_tracked_type(), true)),
        "`TrackedField` must be used directly as a named tracked-data field"
    );
    assert_eq!(
        err(validate_derived_field(DataKind::TrackedStruct, tracked_type(), false)),
        "`TrackedField` must be used directly as a named tracked-data field"
    );
}

#[test]
fn tracked_field_outside_tracked_data_is_rejected() {
    assert_eq!(
        err(validate_derived_field(DataKind::Interned, tracked_type(), true)),
        "`TrackedField` cannot be stored in interned data"
    );
    assert_eq!(
        err(validate_derived_field(DataKind::Input, tracked_type(), true)),
        "`TrackedField` cannot be stored in input data"
    );
}

#[test]
fn input_field_rules() {
    assert!(validate_derived_field(DataKind::Input, input_type(), true).is_ok());
    assert_eq!(
        err(validate_derived_field(DataKind::Input, nested_input_type(), true)),
        "`InputField` must be used directly as a named input-data field"
    );
    assert_eq!(
        err(validate_derived_field(DataKind::TrackedStruct, input_type(), true)),
        "`InputField` cannot be stored in tracked data"
    );
    assert_eq!(
        err(validate_derived_field(DataKind::Interned, input_type(), true)),
        "`InputField` cannot be stored in interned data"
    );
}

#[test]
fn enum_variant_fields_may_not_hold_tracked_fields() {
    let item = DataItem::Enum {
        fields: vec![field(plain_type()), field(tracked_type())],
    };
    assert_eq!(
        err(validate_derived_data(DataKind::TrackedStruct, &item)),
        "`TrackedField` must be used directly as a named tracked-data field"
    );
    assert!(validate_derived_data(DataKind::TrackedStruct, &DataItem::Union).is_ok());
}

#[test]
fn first_rejected_field_is_reported() {
    let item = DataItem::Struct {
        named: true,
        fields: vec![field(plain_type()), field(input_type()), field(tracked_type())],
    };
    assert_eq!(
        err(validate_derived_data(DataKind::Interned, &item)),
        "`InputField` cannot be stored in interned data"
    );
}

#[test]
fn erased_data_type_counts_lifetimes() {
    let params = vec![GenericParamKind::Lifetime, GenericParamKind::Lifetime];
    assert_eq!(erased_data_type(&params), Ok(2));
    assert_eq!(erased_data_type(&Vec::new()), Ok(0));
}

#[test]
fn erased_data_type_rejects_the_first_non_lifetime_parameter() {
    let params = vec![
        GenericParamKind::Lifetime,
        GenericParamKind::Const,
        GenericParamKind::Type,
    ];
    assert_eq!(
        err(erased_data_type(&params)),
        "Salsa data derives do not support const parameters"
    );
    let params = vec![GenericParamKind::Type];
    assert_eq!(
        err(erased_data_type(&params)),
        "Salsa data derives do not support type parameters"
    );
}

#[test]
fn field_update_strategies() {
    let mut f = field(plain_type());
    assert_eq!(field_update(f), Ok(UpdateStrategy::Dispatch));
    f.no_eq = true;
    assert_eq!(field_update(f), Ok(UpdateStrategy::AlwaysUpdate));
    f.no_eq = false;
    f.maybe_update = true;
    assert_eq!(field_update(f), Ok(UpdateStrategy::Custom));
    f.no_eq = true;
    assert_eq!(
        err(field_update(f)),
        "`no_eq` and `maybe_update` cannot be combined"
    );
    let mut g = field(plain_type());
    g.unsupported_option = true;
    assert_eq!(err(field_update(g)), "unsupported `TrackedData` field option");
}

#[test]
fn unnamed_tracked_data_may_not_hold_tracked_fields() {
    let fields = vec![field(plain_type()), field(tracked_type())];
    assert_eq!(
        err(tracked_data_impl(false, &fields)),
        "tracked data containing `TrackedField` must use named fields"
    );
    let fields = vec![field(plain_type())];
    assert!(matches!(tracked_data_impl(false, &fields), Ok(DataImpl::Simple)));
}

#[test]
fn named_tracked_data_splits_its_fields() {
    let mut custom = field(plain_type());
    custom.maybe_update = true;
    let mut always = field(tracked_type());
    always.no_eq = true;
    let fields = vec![field(tracked_type()), custom, always, field(plain_type())];
    match tracked_data_impl(true, &fields) {
        Ok(DataImpl::TrackedFields(layout)) => {
            assert_eq!(layout.tracked_fields, vec![0, 2]);
            assert_eq!(layout.untracked, vec![1, 3]);
            assert_eq!(
                layout.tracked_updates,
                vec![UpdateStrategy::Dispatch, UpdateStrategy::AlwaysUpdate]
            );
            assert_eq!(
                layout.untracked_updates,
                vec![UpdateStrategy::Custom, UpdateStrategy::Dispatch]
            );
        }
        _ => panic!("expected tracked fields"),
    }
}

#[test]
fn tracked_field_options_are_checked_before_other_fields() {
    let mut bad_untracked = field(plain_type());
    bad_untracked.unsupported_option = true;
    let mut bad_tracked = field(tracked_type());
    bad_tracked.no_eq = true;
    bad_tracked.maybe_update = true;
    let fields = vec![bad_untracked, bad_tracked];
    assert_eq!(
        err(tracked_data_impl(true, &fields)),
        "`no_eq` and `maybe_update` cannot be combined"
    );
}

#[test]
fn input_field_jars_are_registered_per_direct_member() {
    let fields = vec![field(input_type()), field(plain_type()), field(input_type())];
    assert_eq!(input_field_jars(&fields), vec![0, 2]);
}

#[test]
fn derive_rejects_input_enums_and_unions() {
    let item = DataItem::Enum {
        fields: vec![field(plain_type())],
    };
    assert_eq!(
        err(salsa_generic::derive_rules::derive(DataKind::Input, &item, &Vec::new())),
        "`InputData` can only be derived for structs"
    );
    assert_eq!(
        err(salsa_generic::derive_rules::derive(DataKind::Interned, &DataItem::Union, &Vec::new())),
        "Salsa data derives do not support unions"
    );
}

#[test]
fn derive_checks_fields_before_parameters() {
    let item = DataItem::Struct {
        named: true,
        fields: vec![field(tracked_type())],
    };
    let params = vec![GenericParamKind::Type];
    assert_eq!(
        err(salsa_generic::derive_rules::derive(DataKind::Interned, &item, &params)),
        "`TrackedField` cannot be stored in interned data"
    );
    let item = DataItem::Struct {
        named: true,
        fields: vec![field(plain_type())],
    };
    assert_eq!(
        err(salsa_generic::derive_rules::derive(DataKind::Interned, &item, &params)),
        "Salsa data derives do not support type parameters"
    );
}

#[test]
fn derive_plans_an_input_struct() {
    let item = DataItem::Struct {
        named: true,
        fields: vec![field(input_type()), field(plain_type())],
    };
    let params = vec![GenericParamKind::Lifetime];
    let plan = salsa_generic::derive_rules::derive(DataKind::Input, &item, &params).unwrap();
    assert!(matches!(plan.data, DataImpl::Simple));
    assert_eq!(plan.erased_lifetimes, 1);
    assert_eq!(plan.input_field_jars, vec![0]);
}

#[test]
fn derive_plans_tracked_data_and_plain_enums() {
    let item = DataItem::Struct {
        named: true,
        fields: vec![field(plain_type()), field(tracked_type())],
    };
    let plan = salsa_generic::derive_rules::derive(DataKind::TrackedStruct, &item, &Vec::new()).unwrap();
    match plan.data {
        DataImpl::TrackedFields(layout) => {
            assert_eq!(layout.tracked_fields, vec![1]);
            assert_eq!(layout.untracked, vec![0]);
        }
        DataImpl::Simple => panic!("expected tracked fields"),
    }
    let item = DataItem::Enum {
        fields: vec![field(plain_type())],
    };
    let plan = salsa_generic::derive_rules::derive(DataKind::TrackedStruct, &item, &Vec::new()).unwrap();
    assert!(matches!(plan.data, DataImpl::Simple));
    assert!(plan.input_field_jars.is_empty());
}
