use salsa_generic::derive_rules::GenericParamKind;
use salsa_generic::struct_derive::{
    data_config_impl, erased_struct_type, options, representation, ConfigChoice,
    DataConfig, ReprAccess, ReprKind, ReprType, StructItem, StructOption, StructOptions,
};

fn err<T>(r: Result<T, String>) -> String {
    match r {
        Ok(_) => panic!("expected an error"),
        Err(e) => e,
    }
}

fn handle(name: &str, type_args: Option<usize>) -> ReprType {
    ReprType::Path {
        last: Some(name.to_string()),
        type_args,
    }
}

#[test]
fn representation_accepts_one_positional_or_named_field() {
    assert!(matches!(
        representation(&StructItem::Unnamed(1)),
        Ok(ReprAccess::Positional)
    ));
    match representation(&StructItem::Named(vec!["handle".to_string()])) {
        Ok(ReprAccess::Named(name)) => assert_eq!(name, "handle"),
        _ => panic!("expected a named field"),
    }
}

#[test]
fn representation_rejects_other_shapes() {
    let one_field = "`Struct` requires exactly one field containing a generic Salsa handle";
    assert_eq!(err(representation(&StructItem::Unnamed(2))), one_field);
    assert_eq!(err(representation(&StructItem::Unnamed(0))), one_field);
    assert_eq!(
        err(representation(&StructItem::Named(vec![
            "a".to_string(),
            "b".to_string()
        ]))),
        one_field
    );
    assert_eq!(err(representation(&StructItem::Unit)), one_field);
    assert_eq!(
        err(representation(&StructItem::NotAStruct)),
        "`Struct` can only be derived for a struct with one field"
    );
}

#[test]
fn options_read_configuration_and_the_last_debug() {
    let entries = vec![
        StructOption::Debug(true),
        StructOption::Other,
        StructOption::Configuration,
        StructOption::Debug(false),
    ];
    assert_eq!(
        options(&entries),
        Ok(StructOptions {
            configuration: true,
            debug: false
        })
    );
    assert_eq!(
        options(&Vec::new()),
        Ok(StructOptions {
            configuration: false,
            debug: false
        })
    );
}

#[test]
fn repeated_configuration_is_rejected() {
    let entries = vec![StructOption::Configuration, StructOption::Configuration];
    assert_eq!(err(options(&entries)), "duplicate `configuration` option");
}

#[test]
fn wrapper_parameters_must_be_lifetimes() {
    assert_eq!(
        erased_struct_type(&vec![GenericParamKind::Lifetime]),
        Ok(1)
    );
    assert_eq!(
        err(erased_struct_type(&vec![
            GenericParamKind::Lifetime,
            GenericParamKind::Type
        ])),
        "Salsa struct wrappers do not support type or const parameters"
    );
}

#[test]
fn data_config_for_each_handle_kind() {
    let params = vec![GenericParamKind::Lifetime];
    assert_eq!(
        data_config_impl(&handle("Tracked", Some(2)), &params, false),
        Ok(Some(DataConfig {
            kind: ReprKind::TrackedHandle,
            config: ConfigChoice::Generic(ReprKind::TrackedHandle),
            erased_lifetimes: 1,
            data_type_arg: 1,
        }))
    );
    assert_eq!(
        data_config_impl(&handle("Interned", Some(1)), &params, true),
        Ok(Some(DataConfig {
            kind: ReprKind::InternedHandle,
            config: ConfigChoice::Wrapper,
            erased_lifetimes: 1,
            data_type_arg: 0,
        }))
    );
    assert_eq!(
        data_config_impl(&handle("Input", Some(1)), &Vec::new(), false),
        Ok(Some(DataConfig {
            kind: ReprKind::InputHandle,
            config: ConfigChoice::Generic(ReprKind::InputHandle),
            erased_lifetimes: 0,
            data_type_arg: 0,
        }))
    );
}

#[test]
fn data_config_ignores_other_types() {
    assert_eq!(
        data_config_impl(&handle("Id", Some(1)), &Vec::new(), false),
        Ok(None)
    );
    assert_eq!(data_config_impl(&ReprType::Other, &Vec::new(), false), Ok(None));
    let no_name = ReprType::Path {
        last: None,
        type_args: None,
    };
    assert_eq!(data_config_impl(&no_name, &Vec::new(), false), Ok(None));
}

#[test]
fn handle_without_data_is_rejected() {
    assert_eq!(
        err(data_config_impl(&handle("Tracked", None), &Vec::new(), false)),
        "generic Salsa handle requires data"
    );
    assert_eq!(
        err(data_config_impl(&handle("Input", Some(0)), &Vec::new(), false)),
        "generic Salsa handle requires data"
    );
    assert_eq!(
        err(data_config_impl(
            &handle("Interned", Some(1)),
            &vec![GenericParamKind::Const],
            false
        )),
        "Salsa struct wrappers do not support type or const parameters"
    );
}

#[test]
fn derive_combines_field_options_and_configuration() {
    let item = StructItem::Unnamed(1);
    let entries = vec![StructOption::Debug(true)];
    let params = vec![GenericParamKind::Lifetime];
    let d = salsa_generic::struct_derive::derive(&item, &handle("Tracked", Some(2)), &entries, &params).unwrap();
    assert!(matches!(d.access, ReprAccess::Positional));
    assert!(d.debug_impl);
    assert_eq!(
        d.data_config,
        Some(DataConfig {
            kind: ReprKind::TrackedHandle,
            config: ConfigChoice::Generic(ReprKind::TrackedHandle),
            erased_lifetimes: 1,
            data_type_arg: 1,
        })
    );
}

#[test]
fn derive_reports_the_field_before_the_options() {
    let entries = vec![StructOption::Configuration, StructOption::Configuration];
    assert_eq!(
        err(salsa_generic::struct_derive::derive(
            &StructItem::Unit,
            &handle("Tracked", Some(1)),
            &entries,
            &Vec::new()
        )),
        "`Struct` requires exactly one field containing a generic Salsa handle"
    );
    assert_eq!(
        err(salsa_generic::struct_derive::derive(
            &StructItem::Unnamed(1),
            &handle("Tracked", None),
            &entries,
            &Vec::new()
        )),
        "duplicate `configuration` option"
    );
}
