use salsa_generic::last_path_component;

#[test]
fn debug_names_use_the_last_top_level_path_component() {
    assert_eq!(last_path_component("crate::Record"), "Record");
    assert_eq!(
        last_path_component("crate::Record<other::Value>"),
        "Record<other::Value>"
    );
}

#[test]
fn plain_names_are_kept_whole() {
    assert_eq!(last_path_component("Record"), "Record");
    assert_eq!(last_path_component(""), "");
}

#[test]
fn separators_inside_brackets_are_ignored() {
    assert_eq!(last_path_component("a::b::(c::D, e::F)"), "(c::D, e::F)");
    assert_eq!(last_path_component("x::[y::Z; 3]"), "[y::Z; 3]");
    assert_eq!(last_path_component("a::B<c::D>::E"), "E");
}

#[test]
fn unmatched_closing_brackets_do_not_go_below_top_level() {
    assert_eq!(last_path_component("a>::b"), "b");
}

#[test]
fn last_component_is_idempotent() {
    let once = last_path_component("outer::inner::Record<other::Value>");
    assert_eq!(last_path_component(once), once);
}

#[test]
fn non_ascii_names_are_cut_at_characters() {
    assert_eq!(last_path_component("modulé::Größe"), "Größe");
}
