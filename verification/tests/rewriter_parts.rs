use bridge_rewrite::bridge_converter::{AdditionalNeed, BridgeConverter, ConvertError};
use bridge_rewrite::names::TypeName;
use bridge_rewrite::syntax::{
    Attribute, Block, FnArg, ForeignItem, ForeignItemFn, ImplItem, ImplItemMethod, Item,
    ItemEnum, ItemImpl, ItemStruct, PatIdent, PatType, PathArguments, PathSegment, Pattern,
    Signature, Type, TypePath, TypePtr, TypeReference,
};
use bridge_rewrite::text::{
    clone_opt_text, clone_texts, contains_text, has_prefix, join_pair, same_text,
};

fn s(x: &str) -> String {
    x.to_string()
}

fn converter() -> BridgeConverter {
    BridgeConverter::new(vec![], vec![], false)
}

fn path(name: &str) -> Type {
    Type::Path(TypePath {
        qself: None,
        leading_colon: false,
        segments: vec![PathSegment { ident: s(name), arguments: PathArguments::Empty }],
    })
}

fn ptr(mutable: bool, elem: Type) -> Type {
    Type::Ptr(TypePtr { mutable, elem: Box::new(elem) })
}

fn reference(mutable: bool, elem: Type) -> Type {
    Type::Reference(TypeReference { lifetime: None, mutable, elem: Box::new(elem) })
}

fn attr(name: &str) -> Attribute {
    Attribute { path: vec![s(name)], tokens: s("(x)") }
}

fn ident_pattern(name: &str, by_ref: bool, mutable: bool) -> Pattern {
    Pattern::Ident(PatIdent {
        attrs: vec![attr("allow")],
        by_ref,
        mutable,
        ident: s(name),
        subpat: Some(s("_")),
    })
}

fn typed(pat: Pattern, ty: Type) -> FnArg {
    FnArg::Typed(PatType { attrs: vec![attr("cfg")], pat, ty })
}

fn names(list: &[&str]) -> Vec<TypeName> {
    list.iter().map(|n| TypeName::new(n)).collect()
}

fn function(name: &str, inputs: Vec<FnArg>) -> ForeignItemFn {
    ForeignItemFn {
        attrs: vec![attr("link_name"), attr("doc"), attr("link_name")],
        vis: s("pub"),
        sig: Signature {
            qualifiers: s(""),
            unsafety: false,
            ident: s(name),
            generics: s(""),
            inputs,
            variadic: true,
            output: Some(ptr(true, path("std_string"))),
        },
    }
}

#[test]
fn texts_are_compared_by_their_characters() {
    assert!(same_text("", ""));
    assert!(same_text("héllo", "héllo"));
    assert!(!same_text("hello", "hellp"));
    assert!(!same_text("hello", "hell"));
    assert!(!same_text("", "a"));
}

#[test]
fn prefix_is_found_at_the_start_only() {
    assert!(has_prefix("Widget_resize", "Widget_"));
    assert!(has_prefix("Widget", "Widget"));
    assert!(has_prefix("Widget", ""));
    assert!(!has_prefix("Widget", "Widget_"));
    assert!(!has_prefix("aWidget_", "Widget_"));
    assert!(has_prefix("ß_x", "ß_"));
}

#[test]
fn texts_are_joined_and_copied() {
    assert_eq!(join_pair("Point", "_make_unique"), "Point_make_unique");
    assert_eq!(join_pair("", ""), "");
    assert_eq!(clone_opt_text(&Some(s("a"))), Some(s("a")));
    assert_eq!(clone_opt_text(&None), None);
    assert_eq!(clone_texts(&vec![s("a"), s(""), s("b")]), vec![s("a"), s(""), s("b")]);
    assert!(contains_text(&vec![s("a"), s("b")], "b"));
    assert!(!contains_text(&vec![s("a"), s("b")], "c"));
    assert!(!contains_text(&vec![], ""));
}

#[test]
fn type_name_holds_the_text_it_was_made_of() {
    let a = TypeName::new("A");
    assert_eq!(a, TypeName::from_ident(&s("A")));
    assert_ne!(a, TypeName::new("a"));
    assert_eq!(a.duplicate(), a);
    assert_eq!(a.as_str(), "A");
}

#[test]
fn named_attributes_are_stripped_and_the_rest_keeps_its_order() {
    let attrs = vec![attr("repr"), attr("doc"), attr("repr"), attr("derive"), attr("reprx")];
    assert_eq!(
        converter().strip_attr(attrs, "repr"),
        vec![attr("doc"), attr("derive"), attr("reprx")]
    );
    assert_eq!(converter().strip_attr(vec![], "repr"), vec![]);
    assert_eq!(converter().strip_attr(vec![attr("doc")], ""), vec![attr("doc")]);
}

#[test]
fn receiver_named_this_becomes_self() {
    let (arg, this) =
        converter().convert_fn_arg(typed(ident_pattern("this", true, true), ptr(false, path("W"))));
    assert!(this);
    assert_eq!(arg, typed(ident_pattern("self", true, true), reference(false, path("W"))));
}

#[test]
fn other_parameters_keep_their_pattern() {
    let c = converter();
    let (arg, this) =
        c.convert_fn_arg(typed(ident_pattern("that", false, false), path("std_string")));
    assert!(!this);
    assert_eq!(arg, typed(ident_pattern("that", false, false), path("CxxString")));
    let (arg, this) = c.convert_fn_arg(typed(Pattern::Other(s("(this, _)")), ptr(true, path("W"))));
    assert!(!this);
    assert_eq!(arg, typed(Pattern::Other(s("(this, _)")), reference(true, path("W"))));
    let (arg, this) = c.convert_fn_arg(FnArg::Receiver(s("&mut self")));
    assert!(!this);
    assert_eq!(arg, FnArg::Receiver(s("&mut self")));
}

#[test]
fn constructor_of_a_seen_type_is_dropped() {
    let c = converter();
    let seen = names(&["A", "Widget"]);
    assert_eq!(c.convert_foreign_fn(&seen, &names(&[]), function("Widget_Widget", vec![])), None);
    assert!(c.convert_foreign_fn(&seen, &names(&[]), function("Widget_A", vec![])).is_some());
    assert!(c.convert_foreign_fn(&names(&[]), &seen, function("Widget_Widget", vec![])).is_some());
    assert_eq!(c.convert_foreign_fn(&names(&[""]), &names(&[]), function("_", vec![])), None);
}

#[test]
fn function_is_converted_as_a_whole() {
    let input = function(
        "Widget_resize",
        vec![
            typed(ident_pattern("w", false, false), path("i32")),
            typed(ident_pattern("this", false, false), ptr(true, path("Widget"))),
        ],
    );
    let expected = ForeignItemFn {
        attrs: vec![attr("doc")],
        vis: s("pub"),
        sig: Signature {
            qualifiers: s(""),
            unsafety: false,
            ident: s("resize"),
            generics: s(""),
            inputs: vec![
                typed(ident_pattern("w", false, false), path("i32")),
                typed(ident_pattern("self", false, false), reference(true, path("Widget"))),
            ],
            variadic: true,
            output: Some(reference(true, path("CxxString"))),
        },
    };
    assert_eq!(
        converter().convert_foreign_fn(&names(&[]), &names(&["Other", "Widget"]), input),
        Some(expected)
    );
}

#[test]
fn function_without_receiver_keeps_its_name() {
    let input = function("Widget_count", vec![typed(ident_pattern("n", false, false), path("u8"))]);
    let got = converter().convert_foreign_fn(&names(&[]), &names(&["Widget"]), input).unwrap();
    assert_eq!(got.sig.ident, "Widget_count");
}

#[test]
fn items_of_a_foreign_block_are_converted_in_order() {
    let c = converter();
    let this = || typed(ident_pattern("this", false, false), ptr(true, path("W")));
    let items = vec![
        ForeignItem::Fn(function("W_a", vec![this()])),
        ForeignItem::Fn(function("W_W", vec![this()])),
        ForeignItem::Fn(function("W_b", vec![this()])),
    ];
    let got = c.convert_foreign_mod_items(&names(&["W"]), &names(&["W"]), items).unwrap();
    let got_names: Vec<String> = got
        .iter()
        .map(|i| match i {
            ForeignItem::Fn(f) => f.sig.ident.clone(),
            _ => panic!("only functions are expected"),
        })
        .collect();
    assert_eq!(got_names, vec![s("a"), s("b")]);
    assert_eq!(c.convert_foreign_mod_items(&names(&[]), &names(&[]), vec![]), Ok(vec![]));
    assert_eq!(
        c.convert_foreign_mod_items(
            &names(&[]),
            &names(&[]),
            vec![ForeignItem::Fn(function("f", vec![])), ForeignItem::Header(s("a.h"))]
        ),
        Err(ConvertError::UnknownForeignItem)
    );
}

#[test]
fn name_of_a_type_is_asked_of_paths_only() {
    let c = converter();
    assert_eq!(c.type_to_typename(&path("Widget")), Some(TypeName::new("Widget")));
    assert_eq!(c.type_to_typename(&ptr(true, path("Widget"))), None);
    assert_eq!(c.type_to_typename(&reference(true, path("Widget"))), None);
    assert_eq!(c.type_to_typename(&Type::Other(s("()"))), None);
}

#[test]
fn aggregate_and_enum_lose_their_layout_attributes() {
    let c = converter();
    let def = ItemStruct {
        attrs: vec![attr("repr"), attr("doc")],
        vis: s("pub"),
        ident: s("P"),
        generics: s("<T>"),
        fields: vec![],
    };
    assert_eq!(
        c.convert_struct(def),
        Item::Struct(ItemStruct {
            attrs: vec![attr("doc")],
            vis: s("pub"),
            ident: s("P"),
            generics: s("<T>"),
            fields: vec![],
        })
    );
    let colour = ItemEnum {
        attrs: vec![attr("derive"), attr("repr"), attr("doc"), attr("derive")],
        vis: s(""),
        ident: s("C"),
        generics: s(""),
        variants: vec![s("A")],
    };
    assert_eq!(
        c.convert_enum(colour),
        Item::Enum(ItemEnum {
            attrs: vec![attr("doc")],
            vis: s(""),
            ident: s("C"),
            generics: s(""),
            variants: vec![s("A")],
        })
    );
}

#[test]
fn alias_of_an_opaque_type_has_two_items() {
    let got = converter().generate_type_alias("Widget");
    assert_eq!(got.len(), 2);
    match &got[0] {
        Item::ForeignMod(m) => {
            assert_eq!(m.abi, "C");
            assert!(!m.unsafety);
            assert_eq!(m.items, vec![ForeignItem::Type(s("Widget"))]);
        }
        _ => panic!("the alias is expected first"),
    }
    match &got[1] {
        Item::Struct(h) => {
            assert_eq!(h.ident, "WidgetContainingStruct");
            assert_eq!(h.fields.len(), 1);
            assert_eq!(h.fields[0].ident, Some(s("_0")));
        }
        _ => panic!("the holder is expected second"),
    }
}

#[test]
fn block_without_a_path_shaped_type_leaves_nothing() {
    let block = ItemImpl {
        attrs: vec![],
        defaultness: false,
        unsafety: true,
        generics: s(""),
        trait_: None,
        self_ty: Type::Other(s("[u8]")),
        items: vec![ImplItem::Method(ImplItemMethod {
            attrs: vec![],
            vis: s(""),
            defaultness: false,
            sig: Signature {
                qualifiers: s(""),
                unsafety: true,
                ident: s("new"),
                generics: s(""),
                inputs: vec![],
                variadic: false,
                output: None,
            },
            block: Block::Verbatim(s("{}")),
        })],
    };
    assert_eq!(converter().convert_impl(block), (vec![], vec![]));
}

#[test]
fn block_keeps_its_header_for_each_constructor() {
    let method = |name: &str| {
        ImplItem::Method(ImplItemMethod {
            attrs: vec![attr("inline")],
            vis: s("pub(crate)"),
            defaultness: true,
            sig: Signature {
                qualifiers: s("const"),
                unsafety: true,
                ident: s(name),
                generics: s("<U>"),
                inputs: vec![typed(ident_pattern("a", false, false), path("A"))],
                variadic: false,
                output: Some(path("Self")),
            },
            block: Block::Verbatim(s("{ build() }")),
        })
    };
    let block = ItemImpl {
        attrs: vec![attr("allow")],
        defaultness: true,
        unsafety: true,
        generics: s("<T>"),
        trait_: Some(s("Make")),
        self_ty: path("Widget"),
        items: vec![
            method("new"),
            ImplItem::Other(s("type X = u8;")),
            method("renew"),
            method("new"),
        ],
    };
    let (items, needs) = converter().convert_impl(block);
    let expected = || {
        Item::Impl(ItemImpl {
            attrs: vec![],
            defaultness: true,
            unsafety: false,
            generics: s("<T>"),
            trait_: Some(s("Make")),
            self_ty: path("Widget"),
            items: vec![ImplItem::Method(ImplItemMethod {
                attrs: vec![],
                vis: s("pub(crate)"),
                defaultness: true,
                sig: Signature {
                    qualifiers: s("const"),
                    unsafety: false,
                    ident: s("make_unique"),
                    generics: s("<U>"),
                    inputs: vec![typed(ident_pattern("a", false, false), path("A"))],
                    variadic: false,
                    output: Some(path("Self")),
                },
                block: Block::Call(s("Widget_make_unique")),
            })],
        })
    };
    assert_eq!(items, vec![expected(), expected()]);
    let need = || AdditionalNeed::MakeUnique(TypeName::new("Widget"), names(&["A"]));
    assert_eq!(needs, vec![need(), need()]);
}
