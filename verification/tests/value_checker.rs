use bridge_rewrite::byvalue_checker::{
    name_of_path, name_of_pointee, ByValueChecker, TypeClassification,
};
use bridge_rewrite::names::TypeName;
use bridge_rewrite::syntax::{
    Field, GenericArgument, ItemStruct, PathArguments, PathSegment, Type, TypePath, TypePtr,
    TypeReference,
};

fn s(x: &str) -> String {
    x.to_string()
}

fn path(name: &str) -> Type {
    Type::Path(TypePath {
        qself: None,
        leading_colon: false,
        segments: vec![PathSegment { ident: s(name), arguments: PathArguments::Empty }],
    })
}

fn ptr(elem: Type) -> Type {
    Type::Ptr(TypePtr { mutable: true, elem: Box::new(elem) })
}

fn strukt(name: &str, fields: Vec<Type>) -> ItemStruct {
    ItemStruct {
        attrs: vec![],
        vis: s("pub"),
        ident: s(name),
        generics: s(""),
        fields: fields
            .into_iter()
            .map(|ty| Field { attrs: vec![], vis: s(""), ident: None, ty })
            .collect(),
    }
}

fn names(list: &[&str]) -> Vec<TypeName> {
    list.iter().map(|n| TypeName::new(n)).collect()
}

#[test]
fn plain_data_is_value_safe() {
    let mut checker = ByValueChecker::new();
    checker.ingest_struct(&strukt("Point", vec![path("i32"), path("i32")]));
    let verdicts = checker.classify(&names(&["Point"])).unwrap();
    assert!(verdicts.is_pod(&TypeName::new("Point")));
    assert!(verdicts.is_pod(&TypeName::new("i32")));
    assert_eq!(verdicts.verdict(&TypeName::new("Point")), TypeClassification::ValueSafe);
}

#[test]
fn what_is_not_requested_is_opaque() {
    let mut checker = ByValueChecker::new();
    checker.ingest_struct(&strukt("Point", vec![path("i32")]));
    checker.ingest_struct(&strukt("Widget", vec![ptr(path("Widget"))]));
    let verdicts = checker.classify(&names(&["Point"])).unwrap();
    assert_eq!(verdicts.verdict(&TypeName::new("Widget")), TypeClassification::Opaque);
    assert!(!verdicts.is_pod(&TypeName::new("u8")));
    let none = checker.classify(&names(&[])).unwrap();
    assert!(!none.is_pod(&TypeName::new("Point")));
}

#[test]
fn field_types_are_followed() {
    let mut checker = ByValueChecker::new();
    checker.ingest_struct(&strukt("A", vec![path("B"), path("u8")]));
    checker.ingest_struct(&strukt("B", vec![ptr(path("C"))]));
    checker.ingest_struct(&strukt("C", vec![]));
    checker.ingest_struct(&strukt("D", vec![]));
    let verdicts = checker.classify(&names(&["A"])).unwrap();
    for n in ["A", "B", "C", "u8"] {
        assert!(verdicts.is_pod(&TypeName::new(n)));
    }
    assert!(!verdicts.is_pod(&TypeName::new("D")));
}

#[test]
fn unknown_field_type_refuses_the_request() {
    let mut checker = ByValueChecker::new();
    checker.ingest_struct(&strukt("Bad", vec![ptr(path("SelfRef"))]));
    assert_eq!(checker.classify(&names(&["Bad"])).unwrap_err(), "SelfRef");
}

#[test]
fn unknown_type_deep_down_refuses_the_request() {
    let mut checker = ByValueChecker::new();
    checker.ingest_struct(&strukt("A", vec![path("B")]));
    checker.ingest_struct(&strukt("B", vec![path("u8"), path("Missing")]));
    assert_eq!(checker.classify(&names(&["A"])).unwrap_err(), "Missing");
}

#[test]
fn type_known_as_unsafe_refuses_the_request() {
    let mut checker = ByValueChecker::new();
    checker.ingest_struct(&strukt("Named", vec![path("std_string")]));
    assert_eq!(checker.classify(&names(&["Named"])).unwrap_err(), "std_string");
    assert_eq!(checker.classify(&names(&["CxxVector"])).unwrap_err(), "CxxVector");
}

#[test]
fn registry_goes_before_an_aggregate_of_the_same_name() {
    let mut checker = ByValueChecker::new();
    checker.ingest_struct(&strukt("std_string", vec![]));
    checker.ingest_struct(&strukt("u8", vec![path("Missing")]));
    assert_eq!(checker.classify(&names(&["std_string"])).unwrap_err(), "std_string");
    assert!(checker.classify(&names(&["u8"])).unwrap().is_pod(&TypeName::new("u8")));
}

#[test]
fn request_for_an_unseen_type_is_refused() {
    let checker = ByValueChecker::new();
    assert_eq!(checker.classify(&names(&["Nobody"])).unwrap_err(), "Nobody");
    assert!(checker.classify(&names(&["u32", "UniquePtr"])).is_ok());
}

#[test]
fn cycles_through_fields_end() {
    let mut checker = ByValueChecker::new();
    checker.ingest_struct(&strukt("Node", vec![ptr(path("Node")), path("Edge")]));
    checker.ingest_struct(&strukt("Edge", vec![ptr(path("Node")), ptr(path("Edge"))]));
    let verdicts = checker.classify(&names(&["Node", "Node", "Edge"])).unwrap();
    assert!(verdicts.is_pod(&TypeName::new("Node")));
    assert!(verdicts.is_pod(&TypeName::new("Edge")));
}

#[test]
fn telling_of_an_aggregate_twice_changes_nothing() {
    let mut once = ByValueChecker::new();
    once.ingest_struct(&strukt("A", vec![path("B")]));
    let mut twice = ByValueChecker::new();
    twice.ingest_struct(&strukt("A", vec![path("B")]));
    twice.ingest_struct(&strukt("A", vec![path("B")]));
    assert_eq!(once.classify(&names(&["A"])).unwrap_err(), "B");
    assert_eq!(twice.classify(&names(&["A"])).unwrap_err(), "B");
    once.ingest_struct(&strukt("B", vec![]));
    twice.ingest_struct(&strukt("B", vec![]));
    twice.ingest_struct(&strukt("B", vec![]));
    for checker in [&once, &twice] {
        let verdicts = checker.classify(&names(&["A"])).unwrap();
        assert!(verdicts.is_pod(&TypeName::new("A")));
        assert!(verdicts.is_pod(&TypeName::new("B")));
    }
}

#[test]
fn later_definition_of_a_name_replaces_the_earlier() {
    let mut checker = ByValueChecker::new();
    checker.ingest_struct(&strukt("A", vec![path("Missing")]));
    checker.ingest_struct(&strukt("A", vec![path("u8")]));
    assert!(checker.classify(&names(&["A"])).is_ok());
}

#[test]
fn name_of_a_type_is_its_last_segment() {
    let long = TypePath {
        qself: None,
        leading_colon: true,
        segments: vec![
            PathSegment { ident: s("ns"), arguments: PathArguments::Empty },
            PathSegment {
                ident: s("UniquePtr"),
                arguments: PathArguments::AngleBracketed(vec![GenericArgument::Type(path("T"))]),
            },
        ],
    };
    assert_eq!(name_of_path(&long), Some(TypeName::new("UniquePtr")));
    let empty = TypePath { qself: None, leading_colon: false, segments: vec![] };
    assert_eq!(name_of_path(&empty), None);
    let nested = Type::Reference(TypeReference {
        lifetime: None,
        mutable: false,
        elem: Box::new(ptr(path("Deep"))),
    });
    assert_eq!(name_of_pointee(&nested), Some(TypeName::new("Deep")));
    assert_eq!(name_of_pointee(&Type::Other(s("[u8; 4]"))), None);
    assert_eq!(name_of_pointee(&ptr(Type::Other(s("()")))), None);
}

#[test]
fn first_offending_type_of_the_walk_is_named() {
    let mut checker = ByValueChecker::new();
    checker.ingest_struct(&strukt("A", vec![path("u8"), path("B"), path("AfterB")]));
    checker.ingest_struct(&strukt("B", vec![path("InB"), path("AlsoInB")]));
    assert_eq!(checker.classify(&names(&["A"])).unwrap_err(), "InB");
    assert_eq!(checker.classify(&names(&["First", "A", "Last"])).unwrap_err(), "First");
    assert_eq!(checker.classify(&names(&["u8", "B", "First"])).unwrap_err(), "InB");
    assert_eq!(checker.classify(&names(&["std_vector", "First"])).unwrap_err(), "std_vector");
}

#[test]
fn aggregate_is_looked_into_once() {
    let mut checker = ByValueChecker::new();
    checker.ingest_struct(&strukt("A", vec![path("B"), path("A"), path("Missing")]));
    checker.ingest_struct(&strukt("B", vec![path("A"), path("u8")]));
    assert_eq!(checker.classify(&names(&["B", "A"])).unwrap_err(), "Missing");
}
