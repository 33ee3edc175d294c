use bridge_rewrite::deps::{
    Api, FnAnalysis, FnPhase, FnPrePhase, HasDependencies, PodAndDepAnalysis, PodAnalysis,
    RustSubclassFnDetails, TypeKind, TypedefAnalysis,
};
use bridge_rewrite::names::QualifiedName;

fn q(ns: &[&str], name: &str) -> QualifiedName {
    QualifiedName::new(ns.iter().map(|s| s.to_string()).collect(), name.to_string())
}

fn texts(deps: Vec<&QualifiedName>) -> Vec<String> {
    deps.into_iter().map(|d| d.to_text()).collect()
}

fn pod(kind: TypeKind) -> PodAnalysis {
    PodAnalysis { kind, field_types: vec![q(&[], "i32"), q(&["a"], "B"), q(&[], "i32")] }
}

fn late(kind: TypeKind) -> PodAndDepAnalysis {
    PodAndDepAnalysis {
        pod: pod(kind),
        constructor_and_allocator_deps: vec![q(&["a"], "B_alloc"), q(&[], "i32")],
    }
}

#[test]
fn qualified_name_is_written_with_its_namespaces() {
    assert_eq!(q(&[], "x").to_text(), "x");
    assert_eq!(q(&["a"], "x").to_text(), "a::x");
    assert_eq!(q(&["a", "b"], "x").to_text(), "a::b::x");
    assert_eq!(q(&["a"], "x").duplicate(), q(&["a"], "x"));
}

#[test]
fn typedef_depends_on_the_aliased_type_then_on_its_analysis() {
    let analysis = || TypedefAnalysis { deps: vec![q(&[], "T"), q(&["n"], "U")] };
    let early: Api<FnPrePhase> =
        Api::Typedef {
            name: q(&[], "Alias"),
            old_tyname: Some(q(&[], "Old")),
            analysis: analysis(),
        };
    assert_eq!(texts(early.deps()), vec!["Old", "T", "n::U"]);
    let late: Api<FnPhase> =
        Api::Typedef { name: q(&[], "Alias"), old_tyname: None, analysis: analysis() };
    assert_eq!(texts(late.deps()), vec!["T", "n::U"]);
    assert_eq!(late.format_deps(), "T,n::U");
}

#[test]
fn value_safe_struct_depends_on_its_field_types() {
    let early: Api<FnPrePhase> = Api::Struct { name: q(&[], "S"), analysis: pod(TypeKind::Pod) };
    assert_eq!(texts(early.deps()), vec!["i32", "a::B", "i32"]);
    assert_eq!(early.format_deps(), "i32,a::B,i32");
}

#[test]
fn value_safe_struct_later_depends_on_its_constructors_too() {
    let api: Api<FnPhase> = Api::Struct { name: q(&[], "S"), analysis: late(TypeKind::Pod) };
    assert_eq!(texts(api.deps()), vec!["i32", "a::B", "i32", "a::B_alloc", "i32"]);
}

#[test]
fn opaque_struct_depends_on_its_constructors_alone() {
    let early: Api<FnPrePhase> = Api::Struct { name: q(&[], "S"), analysis: pod(TypeKind::Opaque) };
    assert!(early.deps().is_empty());
    assert_eq!(early.format_deps(), "");
    let api: Api<FnPhase> = Api::Struct { name: q(&[], "S"), analysis: late(TypeKind::Opaque) };
    assert_eq!(texts(api.deps()), vec!["a::B_alloc", "i32"]);
}

#[test]
fn function_depends_on_what_its_analysis_found() {
    let early: Api<FnPrePhase> =
        Api::Function { name: q(&[], "f"), analysis: FnAnalysis { deps: vec![q(&["a"], "B")] } };
    assert_eq!(early.format_deps(), "a::B");
    let api: Api<FnPhase> =
        Api::Function { name: q(&[], "f"), analysis: FnAnalysis { deps: vec![] } };
    assert!(api.deps().is_empty());
}

#[test]
fn subclass_depends_on_its_superclass() {
    let early: Api<FnPrePhase> =
        Api::Subclass { name: q(&[], "Sub"), superclass: q(&["base"], "Super") };
    assert_eq!(texts(early.deps()), vec!["base::Super"]);
    let api: Api<FnPhase> =
        Api::Subclass { name: q(&[], "Sub"), superclass: q(&["base"], "Super") };
    assert_eq!(texts(api.deps()), vec!["base::Super"]);
}

#[test]
fn subclass_function_depends_on_its_recorded_list() {
    let details = || RustSubclassFnDetails { dependencies: vec![q(&[], "A"), q(&[], "A")] };
    let early: Api<FnPrePhase> = Api::RustSubclassFn { name: q(&[], "m"), details: details() };
    assert_eq!(early.format_deps(), "A,A");
    let api: Api<FnPhase> = Api::RustSubclassFn { name: q(&[], "m"), details: details() };
    assert_eq!(texts(api.deps()), vec!["A", "A"]);
}

#[test]
fn other_items_depend_on_nothing() {
    let items: Vec<Api<FnPhase>> = vec![
        Api::ForwardDeclaration { name: q(&[], "F") },
        Api::Enum { name: q(&[], "E") },
        Api::Const { name: q(&[], "C") },
    ];
    for item in &items {
        assert!(item.deps().is_empty());
        assert_eq!(item.format_deps(), "");
    }
    let early: Api<FnPrePhase> = Api::Enum { name: q(&["n"], "E") };
    assert!(early.deps().is_empty());
}

#[test]
fn every_item_has_its_name() {
    let name = q(&["n"], "X");
    let items: Vec<Api<FnPrePhase>> = vec![
        Api::ForwardDeclaration { name: name.duplicate() },
        Api::Typedef {
            name: name.duplicate(),
            old_tyname: None,
            analysis: TypedefAnalysis { deps: vec![] },
        },
        Api::Struct { name: name.duplicate(), analysis: pod(TypeKind::Pod) },
        Api::Enum { name: name.duplicate() },
        Api::Const { name: name.duplicate() },
        Api::Function { name: name.duplicate(), analysis: FnAnalysis { deps: vec![] } },
        Api::Subclass { name: name.duplicate(), superclass: q(&[], "S") },
        Api::RustSubclassFn {
            name: name.duplicate(),
            details: RustSubclassFnDetails { dependencies: vec![] },
        },
    ];
    for item in &items {
        assert_eq!(*item.name(), name);
        assert_eq!(*HasDependencies::name(item), name);
    }
}

#[test]
fn comma_stands_between_names_only() {
    let one: Api<FnPhase> =
        Api::Function { name: q(&[], "f"), analysis: FnAnalysis { deps: vec![q(&[], "only")] } };
    assert_eq!(one.format_deps(), "only");
    let three: Api<FnPhase> = Api::Function {
        name: q(&[], "f"),
        analysis: FnAnalysis { deps: vec![q(&[], "a"), q(&["x", "y"], "b"), q(&[], "")] },
    };
    assert_eq!(three.format_deps(), "a,x::y::b,");
}
