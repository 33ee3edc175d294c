use bridge_rewrite::bridge_converter::BridgeConverter;
use bridge_rewrite::known_types::{lookup, replace_known, TypeDetails};
use bridge_rewrite::syntax::{
    clone_type, GenericArgument, PathArguments, PathSegment, Type, TypePath, TypePtr,
    TypeReference,
};

fn s(x: &str) -> String {
    x.to_string()
}

fn convert(ty: &Type) -> Type {
    BridgeConverter::new(vec![], vec![], false).convert_type(ty)
}

fn segment(name: &str, args: Vec<GenericArgument>) -> PathSegment {
    PathSegment {
        ident: s(name),
        arguments: if args.is_empty() {
            PathArguments::Empty
        } else {
            PathArguments::AngleBracketed(args)
        },
    }
}

fn path_of(segments: Vec<PathSegment>) -> Type {
    Type::Path(TypePath { qself: None, leading_colon: false, segments })
}

fn path(name: &str) -> Type {
    path_of(vec![segment(name, vec![])])
}

fn generic(name: &str, arg: Type) -> Type {
    path_of(vec![segment(name, vec![GenericArgument::Type(arg)])])
}

fn ptr(mutable: bool, elem: Type) -> Type {
    Type::Ptr(TypePtr { mutable, elem: Box::new(elem) })
}

fn reference(lifetime: Option<&str>, mutable: bool, elem: Type) -> Type {
    Type::Reference(TypeReference { lifetime: lifetime.map(s), mutable, elem: Box::new(elem) })
}

#[test]
fn registry_replaces_the_well_known_names() {
    assert_eq!(replace_known("std_string"), "CxxString");
    assert_eq!(replace_known("std_unique_ptr"), "UniquePtr");
    assert_eq!(replace_known("std_vector"), "CxxVector");
    assert_eq!(replace_known("UniquePtr"), "UniquePtr");
    assert_eq!(replace_known("i32"), "i32");
    assert_eq!(replace_known("Widget"), "Widget");
    assert_eq!(replace_known(""), "");
}

#[test]
fn registry_knows_what_is_safe_by_value() {
    assert_eq!(
        lookup("std_unique_ptr"),
        Some(TypeDetails { by_value_safe: true, cxx_replacement: Some(s("UniquePtr")) })
    );
    assert_eq!(
        lookup("std_string"),
        Some(TypeDetails { by_value_safe: false, cxx_replacement: Some(s("CxxString")) })
    );
    assert_eq!(
        lookup("std_vector"),
        Some(TypeDetails { by_value_safe: false, cxx_replacement: Some(s("CxxVector")) })
    );
    assert_eq!(
        lookup("UniquePtr"),
        Some(TypeDetails { by_value_safe: true, cxx_replacement: None })
    );
    assert_eq!(
        lookup("CxxString"),
        Some(TypeDetails { by_value_safe: false, cxx_replacement: None })
    );
    assert_eq!(
        lookup("CxxVector"),
        Some(TypeDetails { by_value_safe: false, cxx_replacement: None })
    );
    for name in ["bool", "i8", "i16", "i32", "i64", "u8", "u16", "u32", "u64", "f32", "f64"] {
        assert_eq!(lookup(name), Some(TypeDetails { by_value_safe: true, cxx_replacement: None }));
    }
    assert_eq!(lookup("Widget"), None);
    assert_eq!(lookup("I32"), None);
    assert_eq!(lookup("std_strin"), None);
}

#[test]
fn no_replacement_is_replaced_again() {
    for name in ["std_string", "std_unique_ptr", "std_vector", "i32", "Widget", "CxxString"] {
        let once = replace_known(name);
        assert_eq!(replace_known(&once), once);
    }
}

#[test]
fn raw_pointer_becomes_reference_of_the_same_mutability() {
    assert_eq!(convert(&ptr(true, path("Widget"))), reference(None, true, path("Widget")));
    assert_eq!(convert(&ptr(false, path("Widget"))), reference(None, false, path("Widget")));
    assert_eq!(
        convert(&ptr(false, ptr(true, path("std_string")))),
        reference(None, false, reference(None, true, path("CxxString")))
    );
}

#[test]
fn reference_keeps_its_lifetime_and_converts_its_referent() {
    assert_eq!(
        convert(&reference(Some("'a"), true, ptr(false, path("std_vector")))),
        reference(Some("'a"), true, reference(None, false, path("CxxVector")))
    );
}

#[test]
fn known_name_is_replaced_in_the_last_segment_only() {
    let input = path_of(vec![segment("std_string", vec![]), segment("std_string", vec![])]);
    let expected = path_of(vec![segment("std_string", vec![]), segment("CxxString", vec![])]);
    assert_eq!(convert(&input), expected);
}

#[test]
fn type_arguments_of_every_segment_are_converted() {
    let input = path_of(vec![
        segment("outer", vec![GenericArgument::Type(ptr(true, path("A")))]),
        segment(
            "std_unique_ptr",
            vec![
                GenericArgument::Type(generic("std_vector", ptr(false, path("std_string")))),
                GenericArgument::Other(s("'static")),
            ],
        ),
    ]);
    let expected = path_of(vec![
        segment("outer", vec![GenericArgument::Type(reference(None, true, path("A")))]),
        segment(
            "UniquePtr",
            vec![
                GenericArgument::Type(generic(
                    "CxxVector",
                    reference(None, false, path("CxxString")),
                )),
                GenericArgument::Other(s("'static")),
            ],
        ),
    ]);
    assert_eq!(convert(&input), expected);
}

#[test]
fn other_shapes_and_other_arguments_stay() {
    assert_eq!(convert(&Type::Other(s("[*mut u8; 4]"))), Type::Other(s("[*mut u8; 4]")));
    let parenthesized = path_of(vec![PathSegment {
        ident: s("Fn"),
        arguments: PathArguments::Parenthesized(s("(*mut u8) -> u8")),
    }]);
    let again = path_of(vec![PathSegment {
        ident: s("Fn"),
        arguments: PathArguments::Parenthesized(s("(*mut u8) -> u8")),
    }]);
    assert_eq!(convert(&parenthesized), again);
    let empty = TypePath { qself: Some(s("<T as Tr>")), leading_colon: true, segments: vec![] };
    assert_eq!(
        BridgeConverter::new(vec![], vec![], false).convert_type_path(&empty),
        TypePath { qself: Some(s("<T as Tr>")), leading_colon: true, segments: vec![] }
    );
    assert_eq!(
        BridgeConverter::new(vec![], vec![], false)
            .convert_punctuated(&vec![GenericArgument::Other(s("3"))]),
        vec![GenericArgument::Other(s("3"))]
    );
}

#[test]
fn converting_twice_is_converting_once() {
    let samples = vec![
        path("std_string"),
        ptr(true, generic("std_unique_ptr", ptr(false, path("Widget")))),
        reference(Some("'a"), false, path_of(vec![segment("a", vec![]), segment("b", vec![])])),
        Type::Other(s("()")),
    ];
    for sample in &samples {
        let once = convert(sample);
        assert_eq!(convert(&once), once);
    }
}

fn count_pointers(t: &Type) -> usize {
    match t {
        Type::Path(p) => p
            .segments
            .iter()
            .map(|seg| match &seg.arguments {
                PathArguments::AngleBracketed(args) => args
                    .iter()
                    .map(|a| match a {
                        GenericArgument::Type(t) => count_pointers(t),
                        GenericArgument::Other(_) => 0,
                    })
                    .sum(),
                _ => 0,
            })
            .sum(),
        Type::Reference(r) => count_pointers(&r.elem),
        Type::Ptr(p) => 1 + count_pointers(&p.elem),
        Type::Other(_) => 0,
    }
}

#[test]
fn no_raw_pointer_is_left() {
    let sample = ptr(
        true,
        generic("std_unique_ptr", ptr(false, reference(None, true, ptr(true, path("W"))))),
    );
    assert_eq!(count_pointers(&sample), 3);
    assert_eq!(count_pointers(&convert(&sample)), 0);
}

#[test]
fn pointer_to_reference_drops_nothing_but_the_star() {
    let converter = BridgeConverter::new(vec![], vec![], false);
    let pointer = TypePtr { mutable: true, elem: Box::new(ptr(false, path("std_string"))) };
    assert_eq!(
        converter.convert_ptr_to_reference(&pointer),
        TypeReference {
            lifetime: None,
            mutable: true,
            elem: Box::new(reference(None, false, path("CxxString"))),
        }
    );
    assert_eq!(converter.convert_return_type(None), None);
    assert_eq!(
        converter.convert_return_type(Some(ptr(false, path("u8")))),
        Some(reference(None, false, path("u8")))
    );
}

#[test]
fn copy_of_a_type_equals_it() {
    let sample = ptr(
        true,
        generic("std_unique_ptr", reference(Some("'a"), false, Type::Other(s("[u8; 2]")))),
    );
    assert_eq!(clone_type(&sample), sample);
}
