use uniffi_bindgen::resolver::{
    add_group_to_ci, add_item_to_ci, add_to_ci, crate_name_of, ComponentInterface, Metadata,
    MergeError, MetadataGroup, NamespaceInfo,
};
use uniffi_bindgen::types::{ObjectImpl, Type};

fn s(x: &str) -> String {
    x.to_string()
}

fn object(name: &str) -> Metadata {
    Metadata::Object { module: s("lib"), name: s(name), imp: ObjectImpl::Struct }
}

fn method(owner: &str, name: &str) -> Metadata {
    Metadata::Method { module: s("lib"), self_name: s(owner), name: s(name) }
}

fn group(ns: &str, items: Vec<Metadata>) -> MetadataGroup {
    MetadataGroup { namespace: NamespaceInfo { crate_name: s("lib"), name: s(ns) }, items }
}

#[test]
fn re_adding_a_type_is_idempotent() {
    let mut ci = ComponentInterface::new(s("a"));
    let t = Type::Record { module: s("a"), name: s("Foo") };
    assert!(ci.add_known_type(&t).is_ok());
    assert_eq!(ci.types.len(), 1);
    assert!(ci.add_known_type(&t).is_ok());
    assert_eq!(ci.types.len(), 1);
}

#[test]
fn conflicting_type_is_refused() {
    let mut ci = ComponentInterface::new(s("a"));
    let rec = Type::Record { module: s("a"), name: s("Foo") };
    let obj = Type::Object { module: s("a"), name: s("Foo"), imp: ObjectImpl::Struct };
    assert!(ci.add_known_type(&rec).is_ok());
    match ci.add_known_type(&obj) {
        Err(MergeError::TypeConflict { name, module }) => {
            assert!(!name.is_empty());
            assert_eq!(name, "Foo");
            assert_eq!(module, "a");
        }
        other => panic!("expected a conflict, got {:?}", other),
    }
    assert_eq!(ci.types.len(), 1);
    assert!(matches!(ci.types[0], Type::Record { .. }));
}

#[test]
fn other_namespace_is_refused_before_any_change() {
    let mut ci = ComponentInterface::new(s("a"));
    let r = add_group_to_ci(&mut ci, &group("b", vec![object("Foo")]));
    assert!(matches!(r, Err(MergeError::NamespaceMismatch { .. })));
    assert!(ci.types.is_empty());
    assert!(ci.definitions.is_empty());
}

#[test]
fn object_then_method_succeeds() {
    let mut ci = ComponentInterface::new(s("a"));
    let r = add_group_to_ci(&mut ci, &group("a", vec![object("Foo"), method("Foo", "bar")]));
    assert!(r.is_ok());
    assert_eq!(ci.definitions.len(), 2);
    assert_eq!(ci.ffi_funcs, vec![s("a_Foo_bar")]);
}

#[test]
fn method_then_object_fails() {
    let mut ci = ComponentInterface::new(s("a"));
    let r = add_group_to_ci(&mut ci, &group("a", vec![method("Foo", "bar"), object("Foo")]));
    assert!(matches!(r, Err(MergeError::UnknownOwner { .. })));
}

#[test]
fn identical_definition_is_accepted_again() {
    let mut ci = ComponentInterface::new(s("a"));
    let e = Metadata::Enum { module: s("lib"), name: s("Color") };
    assert!(add_item_to_ci(&mut ci, &e).is_ok());
    assert!(add_item_to_ci(&mut ci, &e).is_ok());
    assert_eq!(ci.types.len(), 1);
    assert_eq!(ci.definitions.len(), 1);
}

#[test]
fn name_taken_by_another_kind_fails() {
    let mut ci = ComponentInterface::new(s("a"));
    let f = Metadata::Func { module: s("lib"), name: s("Thing") };
    let r = Metadata::Record { module: s("lib"), name: s("Thing") };
    assert!(add_item_to_ci(&mut ci, &f).is_ok());
    match add_item_to_ci(&mut ci, &r) {
        Err(MergeError::DuplicateDefinition { name }) => assert_eq!(name, "Thing"),
        other => panic!("expected a duplicate definition, got {:?}", other),
    }
    assert!(ci.types.is_empty());
    assert_eq!(ci.definitions.len(), 1);
}

#[test]
fn method_needs_an_object_owner() {
    let mut ci = ComponentInterface::new(s("a"));
    let cb = Metadata::CallbackInterface { module: s("lib"), name: s("Foo") };
    assert!(add_item_to_ci(&mut ci, &cb).is_ok());
    let m = method("Foo", "bar");
    assert!(matches!(add_item_to_ci(&mut ci, &m), Err(MergeError::UnknownOwner { .. })));
    let tm = Metadata::TraitMethod { module: s("lib"), trait_name: s("Foo"), name: s("bar") };
    assert!(add_item_to_ci(&mut ci, &tm).is_ok());
}

#[test]
fn repeated_item_in_pool_fails() {
    let mut ci = ComponentInterface::new(s("a"));
    let items = vec![
        Metadata::Namespace { crate_name: s("lib"), name: s("a") },
        Metadata::CustomType { module: s("lib"), name: s("Url"), builtin: Type::String },
        Metadata::CustomType { module: s("lib"), name: s("Url"), builtin: Type::String },
    ];
    match add_to_ci(&mut ci, items) {
        Err(MergeError::DuplicateItem { index }) => assert_eq!(index, 2),
        other => panic!("expected a duplicate item, got {:?}", other),
    }
    assert!(ci.types.is_empty());
}

#[test]
fn clashing_symbols_fail_the_check() {
    let mut ci = ComponentInterface::new(s("a"));
    let items = vec![
        Metadata::Object { module: s("lib"), name: s("x"), imp: ObjectImpl::Struct },
        Metadata::Func { module: s("lib"), name: s("x_y") },
        Metadata::Method { module: s("lib"), self_name: s("x"), name: s("y") },
    ];
    let r = add_group_to_ci(&mut ci, &group("a", items));
    match r {
        Err(MergeError::DuplicateSymbol { symbol }) => assert_eq!(symbol, "a_x_y"),
        other => panic!("expected a duplicate symbol, got {:?}", other),
    }
}

#[test]
fn custom_and_udl_items() {
    let mut ci = ComponentInterface::new(s("a"));
    let items = vec![
        Metadata::UdlFile { module: s("lib"), namespace: s("a") },
        Metadata::CustomType { module: s("lib"), name: s("Url"), builtin: Type::String },
        Metadata::Enum { module: s("lib"), name: s("Color") },
        Metadata::CallbackInterface { module: s("lib"), name: s("Cb") },
        Metadata::TraitMethod { module: s("lib"), trait_name: s("Cb"), name: s("call") },
    ];
    assert!(add_group_to_ci(&mut ci, &group("a", items)).is_ok());
    assert_eq!(ci.types.len(), 2);
    assert_eq!(ci.definitions.len(), 3);
    assert_eq!(ci.ffi_funcs, vec![s("a_Cb_call")]);
}

#[test]
fn crate_is_first_path_segment() {
    assert_eq!(crate_name_of(&s("my_crate::inner::deep")), "my_crate");
    assert_eq!(crate_name_of(&s("solo")), "solo");
    assert_eq!(crate_name_of(&s("")), "");
}

#[test]
fn pool_is_grouped_by_crate() {
    let mut ci = ComponentInterface::new(s("a"));
    let items = vec![
        Metadata::Namespace { crate_name: s("lib"), name: s("a") },
        Metadata::Object { module: s("lib::objs"), name: s("Foo"), imp: ObjectImpl::Struct },
        Metadata::Method { module: s("lib::objs"), self_name: s("Foo"), name: s("go") },
    ];
    assert!(add_to_ci(&mut ci, items).is_ok());
    assert_eq!(ci.ffi_funcs, vec![s("a_Foo_go")]);
}

#[test]
fn pool_with_undeclared_crate_fails() {
    let mut ci = ComponentInterface::new(s("a"));
    let items = vec![Metadata::Func { module: s("other::m"), name: s("f") }];
    match add_to_ci(&mut ci, items) {
        Err(MergeError::UnknownCrate { crate_name }) => assert_eq!(crate_name, "other"),
        other => panic!("expected unknown crate, got {:?}", other),
    }
}

#[test]
fn pool_of_other_namespace_fails() {
    let mut ci = ComponentInterface::new(s("a"));
    let items = vec![
        Metadata::Namespace { crate_name: s("dep"), name: s("b") },
        Metadata::Func { module: s("dep"), name: s("f") },
    ];
    assert!(matches!(add_to_ci(&mut ci, items), Err(MergeError::NamespaceMismatch { .. })));
    assert!(ci.definitions.is_empty());
}

#[test]
fn empty_group_of_other_namespace_is_skipped() {
    let mut ci = ComponentInterface::new(s("a"));
    let items = vec![Metadata::Namespace { crate_name: s("dep"), name: s("b") }];
    assert!(add_to_ci(&mut ci, items).is_ok());
}

#[test]
fn interface_file_marker_declares_its_crate() {
    let mut ci = ComponentInterface::new(s("a"));
    let items = vec![
        Metadata::UdlFile { module: s("udl_crate"), namespace: s("a") },
        Metadata::Func { module: s("udl_crate::api"), name: s("hello") },
    ];
    assert!(add_to_ci(&mut ci, items).is_ok());
    assert_eq!(ci.ffi_funcs, vec![s("a_hello")]);
}

#[test]
fn crate_declared_twice_is_merged_once() {
    let mut ci = ComponentInterface::new(s("a"));
    let items = vec![
        Metadata::Namespace { crate_name: s("lib"), name: s("a") },
        Metadata::Namespace { crate_name: s("lib"), name: s("a") },
        Metadata::Func { module: s("lib"), name: s("f") },
    ];
    assert!(add_to_ci(&mut ci, items).is_ok());
    assert_eq!(ci.definitions.len(), 1);
}

#[test]
fn well_formedness_detects_shared_identity() {
    let mut ci = ComponentInterface::new(s("a"));
    assert!(ci.is_well_formed());
    ci.types.push(Type::Record { module: s("a"), name: s("Foo") });
    ci.types.push(Type::Int32);
    assert!(ci.is_well_formed());
    ci.types.push(Type::Enum { module: s("a"), name: s("Foo") });
    assert!(!ci.is_well_formed());
}

#[test]
fn mismatch_reports_both_namespaces() {
    let mut ci = ComponentInterface::new(s("a"));
    match add_group_to_ci(&mut ci, &group("b", vec![object("Foo")])) {
        Err(MergeError::NamespaceMismatch { expected, found, crate_name }) => {
            assert_eq!(expected, "a");
            assert_eq!(found, "b");
            assert_eq!(crate_name, "lib");
        }
        other => panic!("expected a mismatch, got {:?}", other),
    }
}

#[test]
fn object_conflicting_with_record_leaves_no_mixed_entry() {
    let mut ci = ComponentInterface::new(s("a"));
    let rec = Metadata::Record { module: s("a"), name: s("Foo") };
    let obj = Metadata::Object { module: s("a"), name: s("Foo"), imp: ObjectImpl::Struct };
    assert!(add_item_to_ci(&mut ci, &rec).is_ok());
    assert!(matches!(add_item_to_ci(&mut ci, &obj), Err(MergeError::TypeConflict { .. })));
    assert_eq!(ci.types.len(), 1);
    assert!(matches!(ci.types[0], Type::Record { .. }));
    assert_eq!(ci.definitions.len(), 1);
}
