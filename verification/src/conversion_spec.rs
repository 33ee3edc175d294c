//! What the rewriter produces, stated over the models of the declarations.
//!
//! The rules are applied once over the items of a module, in their order.
//! What a foreign function becomes depends on the aggregates that stand
//! before its block, so the functions that gather output over the items
//! are defined on prefixes of the item list.
use vstd::prelude::*;
use crate::byvalue_checker::{Aggregates, field_type_names, offending, reached, typename_of};
use crate::syntax_model::{
    SpecAttribute, SpecBlock, SpecField, SpecFnArg, SpecForeignItem, SpecForeignItemFn,
    SpecGenericArgument, SpecImplItem, SpecImplItemMethod, SpecItem, SpecItemEnum,
    SpecItemForeignMod, SpecItemImpl, SpecItemMod, SpecItemStruct, SpecPatIdent, SpecPatType,
    SpecPathArguments, SpecPathSegment, SpecPattern, SpecSignature, SpecType, SpecTypePath,
    Text,
};
use crate::type_conversion::{convert_return_type, convert_type};

verus! {

/// The kind of a type that the rewriter has dealt with.
#[derive(Debug, Clone, Copy, PartialEq, Eq, Structural)]
pub enum EncounteredTypeKind {
    Struct,
    Enum,
}

/// The model of a record of a type that the rewriter has dealt with.
pub struct SpecEncounteredType {
    pub kind: EncounteredTypeKind,
    pub name: Text,
}

/// The model of a request for native helper code: a factory for the type,
/// with the types of the constructor's arguments.
pub enum SpecAdditionalNeed {
    MakeUnique(Text, Seq<Text>),
}

/// The model of what a conversion yields.
pub struct SpecBridgeConversion {
    pub items: Seq<SpecItem>,
    pub types_to_disable: Seq<SpecEncounteredType>,
    pub additional_cpp_needs: Seq<SpecAdditionalNeed>,
}

/// The model of the rewriter's settings.
pub struct SpecBridgeConverter {
    pub include_list: Seq<Text>,
    pub pod_requests: Seq<Text>,
    pub old_rust: bool,
}

/// The attributes of `attrs` but those whose path is the identifier `name`.
pub open spec fn strip_attr(attrs: Seq<SpecAttribute>, name: Text) -> Seq<SpecAttribute> {
    attrs.filter(|a: SpecAttribute| !a.is_named(name))
}

/// Whether a parameter is the receiver of a flattened method: a single
/// identifier `this` with a type.
pub open spec fn is_this(arg: SpecFnArg) -> bool {
    arg matches SpecFnArg::Typed(pt) && pt.pat matches SpecPattern::Ident(pp) && pp.ident
        == "this"@
}

/// Whether one of the parameters is the receiver of a flattened method.
pub open spec fn any_this(args: Seq<SpecFnArg>) -> bool {
    exists|i: int| 0 <= i < args.len() && is_this(#[trigger] args[i])
}

/// The bridge's form of a parameter: its type is converted, and the
/// identifier `this` becomes `self`.
pub open spec fn convert_fn_arg(arg: SpecFnArg) -> SpecFnArg {
    match arg {
        SpecFnArg::Typed(pt) => SpecFnArg::Typed(
            SpecPatType {
                attrs: pt.attrs,
                pat: match pt.pat {
                    SpecPattern::Ident(pp) => if pp.ident == "this"@ {
                        SpecPattern::Ident(
                            SpecPatIdent {
                                attrs: pp.attrs,
                                by_ref: pp.by_ref,
                                mutable: pp.mutable,
                                ident: "self"@,
                                subpat: pp.subpat,
                            },
                        )
                    } else {
                        pt.pat
                    },
                    SpecPattern::Other(_) => pt.pat,
                },
                ty: convert_type(pt.ty),
            },
        ),
        SpecFnArg::Receiver(_) => arg,
    }
}

/// The bridge's form of each parameter.
pub open spec fn convert_fn_args(args: Seq<SpecFnArg>) -> Seq<SpecFnArg> {
    args.map_values(|a: SpecFnArg| convert_fn_arg(a))
}

/// The name that the low-level bindings give to the constructor of `ty`.
pub open spec fn constructor_name(ty: Text) -> Text {
    ty + "_"@ + ty
}

/// Whether `name` is the constructor's name of one of `types`.
pub open spec fn is_constructor_name(types: Seq<Text>, name: Text) -> bool {
    exists|i: int| 0 <= i < types.len() && name == constructor_name(#[trigger] types[i])
}

/// Whether `name` is the name of `class`, an underscore, and at least one
/// more character.
pub open spec fn is_method_of(class: Text, name: Text) -> bool {
    (class + "_"@).is_prefix_of(name) && name.len() > class.len() + 1
}

/// How many characters the longest class name that `name` is a method of
/// takes, its underscore counted; 0 where there is none.
pub open spec fn class_prefix_len(classes: Seq<Text>, name: Text) -> nat
    decreases classes.len(),
{
    if classes.len() == 0 {
        0
    } else {
        let rest = class_prefix_len(classes.drop_last(), name);
        if is_method_of(classes.last(), name) && classes.last().len() + 1 > rest {
            classes.last().len() + 1
        } else {
            rest
        }
    }
}

/// The name of a method without the name of its class: where several class
/// names fit, the longest is taken off.
pub open spec fn method_name(classes: Seq<Text>, name: Text) -> Text {
    name.skip(class_prefix_len(classes, name) as int)
}

/// The bridge's form of the signature of a foreign function.
pub open spec fn convert_signature(classes: Seq<Text>, sig: SpecSignature) -> SpecSignature {
    SpecSignature {
        qualifiers: sig.qualifiers,
        unsafety: sig.unsafety,
        ident: if any_this(sig.inputs) {
            method_name(classes, sig.ident)
        } else {
            sig.ident
        },
        generics: sig.generics,
        inputs: convert_fn_args(sig.inputs),
        variadic: sig.variadic,
        output: convert_return_type(sig.output),
    }
}

/// What a foreign function becomes: nothing where it is the constructor of
/// one of `types`; else the function with the bridge's signature and without
/// its `link_name` attributes.
pub open spec fn convert_foreign_fn(
    types: Seq<Text>,
    classes: Seq<Text>,
    f: SpecForeignItemFn,
) -> Option<SpecForeignItemFn> {
    if is_constructor_name(types, f.sig.ident) {
        None
    } else {
        Some(
            SpecForeignItemFn {
                attrs: strip_attr(f.attrs, "link_name"@),
                vis: f.vis,
                sig: convert_signature(classes, f.sig),
            },
        )
    }
}

/// Whether every item of a foreign block is a function.
pub open spec fn all_functions(items: Seq<SpecForeignItem>) -> bool {
    forall|i: int| 0 <= i < items.len() ==> #[trigger] items[i] is Fn
}

/// What the functions of a foreign block become, in order.
pub open spec fn convert_foreign_mod_items(
    types: Seq<Text>,
    classes: Seq<Text>,
    items: Seq<SpecForeignItem>,
) -> Seq<SpecForeignItem>
    decreases items.len(),
{
    if items.len() == 0 {
        Seq::empty()
    } else {
        let rest = convert_foreign_mod_items(types, classes, items.drop_last());
        match items.last() {
            SpecForeignItem::Fn(f) => match convert_foreign_fn(types, classes, f) {
                Some(g) => rest.push(SpecForeignItem::Fn(g)),
                None => rest,
            },
            _ => rest,
        }
    }
}

/// An aggregate that is passed by value, as the bridge gets it: without its
/// `repr` attributes, the field list as it was.
pub open spec fn convert_struct(s: SpecItemStruct) -> SpecItemStruct {
    SpecItemStruct {
        attrs: strip_attr(s.attrs, "repr"@),
        vis: s.vis,
        ident: s.ident,
        generics: s.generics,
        fields: s.fields,
    }
}

/// An enum as the bridge gets it: without its `repr` and `derive`
/// attributes, the variants as they were.
pub open spec fn convert_enum(e: SpecItemEnum) -> SpecItemEnum {
    SpecItemEnum {
        attrs: strip_attr(strip_attr(e.attrs, "repr"@), "derive"@),
        vis: e.vis,
        ident: e.ident,
        generics: e.generics,
        variants: e.variants,
    }
}

/// The declaration that tells the bridge that the type `name` is defined on
/// the native side.
pub open spec fn forward_declaration(name: Text) -> SpecItem {
    SpecItem::ForeignMod(
        SpecItemForeignMod {
            attrs: Seq::empty(),
            unsafety: true,
            abi: "C++"@,
            items: seq![SpecForeignItem::Type(name)],
        },
    )
}

/// A definition for the bridge, with the forward declaration of its type
/// before it unless the target is a legacy one.
pub open spec fn append_cpp_definition_squasher(
    old_rust: bool,
    ident: Text,
    item: SpecItem,
) -> Seq<SpecItem> {
    if old_rust {
        seq![item]
    } else {
        seq![forward_declaration(ident), item]
    }
}

/// The type `UniquePtr<name>`.
pub open spec fn unique_ptr_to(name: Text) -> SpecType {
    SpecType::Path(
        SpecTypePath {
            qself: None,
            leading_colon: false,
            segments: seq![
                SpecPathSegment {
                    ident: "UniquePtr"@,
                    arguments: SpecPathArguments::AngleBracketed(
                        seq![
                            SpecGenericArgument::Type(
                                SpecType::Path(
                                    SpecTypePath {
                                        qself: None,
                                        leading_colon: false,
                                        segments: seq![
                                            SpecPathSegment {
                                                ident: name,
                                                arguments: SpecPathArguments::Empty,
                                            },
                                        ],
                                    },
                                ),
                            ),
                        ],
                    ),
                },
            ],
        },
    )
}

/// What stands for an opaque aggregate `name`: the declaration of the type by
/// name alone, and an aggregate whose one field is an owning pointer to it.
pub open spec fn generate_type_alias(name: Text) -> Seq<SpecItem> {
    seq![
        SpecItem::ForeignMod(
            SpecItemForeignMod {
                attrs: Seq::empty(),
                unsafety: false,
                abi: "C"@,
                items: seq![SpecForeignItem::Type(name)],
            },
        ),
        SpecItem::Struct(
            SpecItemStruct {
                attrs: Seq::empty(),
                vis: Seq::empty(),
                ident: name + "ContainingStruct"@,
                generics: Seq::empty(),
                fields: seq![
                    SpecField {
                        attrs: Seq::empty(),
                        vis: Seq::empty(),
                        ident: Some("_0"@),
                        ty: unique_ptr_to(name),
                    },
                ],
            },
        ),
    ]
}

/// The names of the types of a constructor's parameters: of each parameter
/// whose type is path-shaped, in order.
pub open spec fn constructor_args(inputs: Seq<SpecFnArg>) -> Seq<Text>
    decreases inputs.len(),
{
    if inputs.len() == 0 {
        Seq::empty()
    } else {
        let rest = constructor_args(inputs.drop_last());
        match inputs.last() {
            SpecFnArg::Typed(pt) => match typename_of(pt.ty) {
                Some(n) => rest.push(n),
                None => rest,
            },
            SpecFnArg::Receiver(_) => rest,
        }
    }
}

/// Whether an item of an implementation block is a method named `new`.
pub open spec fn is_constructor(item: SpecImplItem) -> bool {
    item matches SpecImplItem::Method(m) && m.sig.ident == "new"@
}

/// The implementation block that takes the place of the constructor `m` of
/// the type named `ty`: one method `make_unique`, not marked unsafe, whose
/// body calls the free function `ty_make_unique`.
pub open spec fn make_unique_impl(i: SpecItemImpl, ty: Text, m: SpecImplItemMethod) -> SpecItem {
    SpecItem::Impl(
        SpecItemImpl {
            attrs: Seq::empty(),
            defaultness: i.defaultness,
            unsafety: false,
            generics: i.generics,
            trait_: i.trait_,
            self_ty: i.self_ty,
            items: seq![
                SpecImplItem::Method(
                    SpecImplItemMethod {
                        attrs: Seq::empty(),
                        vis: m.vis,
                        defaultness: m.defaultness,
                        sig: SpecSignature {
                            qualifiers: m.sig.qualifiers,
                            unsafety: false,
                            ident: "make_unique"@,
                            generics: m.sig.generics,
                            inputs: m.sig.inputs,
                            variadic: m.sig.variadic,
                            output: m.sig.output,
                        },
                        block: SpecBlock::Call(ty + "_make_unique"@),
                    },
                ),
            ],
        },
    )
}

/// The blocks that take the place of the constructors among `items`, the
/// items of the implementation block `i` of the type named `ty`.
pub open spec fn make_unique_impls(i: SpecItemImpl, ty: Text, items: Seq<SpecImplItem>) -> Seq<
    SpecItem,
>
    decreases items.len(),
{
    if items.len() == 0 {
        Seq::empty()
    } else {
        let rest = make_unique_impls(i, ty, items.drop_last());
        match items.last() {
            SpecImplItem::Method(m) => if m.sig.ident == "new"@ {
                rest.push(make_unique_impl(i, ty, m))
            } else {
                rest
            },
            SpecImplItem::Other(_) => rest,
        }
    }
}

/// The factories that the constructors among `items` ask for.
pub open spec fn make_unique_needs(ty: Text, items: Seq<SpecImplItem>) -> Seq<SpecAdditionalNeed>
    decreases items.len(),
{
    if items.len() == 0 {
        Seq::empty()
    } else {
        let rest = make_unique_needs(ty, items.drop_last());
        match items.last() {
            SpecImplItem::Method(m) => if m.sig.ident == "new"@ {
                rest.push(SpecAdditionalNeed::MakeUnique(ty, constructor_args(m.sig.inputs)))
            } else {
                rest
            },
            SpecImplItem::Other(_) => rest,
        }
    }
}

/// What an implementation block leaves outside the bridge module.
pub open spec fn convert_impl(i: SpecItemImpl) -> Seq<SpecItem> {
    match typename_of(i.self_ty) {
        Some(ty) => make_unique_impls(i, ty, i.items),
        None => Seq::empty(),
    }
}

/// The factories that an implementation block asks for.
pub open spec fn needs_of_impl(i: SpecItemImpl) -> Seq<SpecAdditionalNeed> {
    match typename_of(i.self_ty) {
        Some(ty) => make_unique_needs(ty, i.items),
        None => Seq::empty(),
    }
}

/// The aggregates among `items`, as the checker is told of them.
pub open spec fn aggregates_of(items: Seq<SpecItem>) -> Aggregates
    decreases items.len(),
{
    if items.len() == 0 {
        Map::empty()
    } else {
        let rest = aggregates_of(items.drop_last());
        match items.last() {
            SpecItem::Struct(s) => rest.insert(s.ident, field_type_names(s.fields)),
            _ => rest,
        }
    }
}

/// Whether a requested type cannot be passed by value: an offending type is
/// reached from one of `requests`.
pub open spec fn value_safety_violated(g: Aggregates, requests: Seq<Text>) -> bool {
    exists|n: Text| reached(g, requests, n) && #[trigger] offending(g, n)
}

/// The names that are passed by value: those reached from a request.
pub open spec fn value_safe_names(g: Aggregates, requests: Seq<Text>) -> Set<Text> {
    Set::new(|n: Text| reached(g, requests, n))
}

/// The names of the aggregates among `items`, in order.
pub open spec fn struct_names(items: Seq<SpecItem>) -> Seq<Text>
    decreases items.len(),
{
    if items.len() == 0 {
        Seq::empty()
    } else {
        let rest = struct_names(items.drop_last());
        match items.last() {
            SpecItem::Struct(s) => rest.push(s.ident),
            _ => rest,
        }
    }
}

/// The names of the aggregates among `items` that are passed by value, in
/// order: the class names that are taken off the names of methods.
pub open spec fn class_names(pods: Set<Text>, items: Seq<SpecItem>) -> Seq<Text>
    decreases items.len(),
{
    if items.len() == 0 {
        Seq::empty()
    } else {
        let rest = class_names(pods, items.drop_last());
        match items.last() {
            SpecItem::Struct(s) => if pods.contains(s.ident) {
                rest.push(s.ident)
            } else {
                rest
            },
            _ => rest,
        }
    }
}

/// What one item puts into the bridge module, the merged foreign block
/// aside: for an aggregate that is passed by value its definition, for an
/// opaque one what stands for it, for an enum its definition.
pub open spec fn bridge_items_of(old_rust: bool, pods: Set<Text>, item: SpecItem) -> Seq<SpecItem> {
    match item {
        SpecItem::Struct(s) => if pods.contains(s.ident) {
            append_cpp_definition_squasher(old_rust, s.ident, SpecItem::Struct(convert_struct(s)))
        } else {
            generate_type_alias(s.ident)
        },
        SpecItem::Enum(e) => append_cpp_definition_squasher(
            old_rust,
            e.ident,
            SpecItem::Enum(convert_enum(e)),
        ),
        _ => Seq::empty(),
    }
}

/// What the items put into the bridge module, the merged foreign block
/// aside, in the order of the items.
pub open spec fn bridge_items(old_rust: bool, pods: Set<Text>, items: Seq<SpecItem>) -> Seq<
    SpecItem,
>
    decreases items.len(),
{
    if items.len() == 0 {
        Seq::empty()
    } else {
        bridge_items(old_rust, pods, items.drop_last()) + bridge_items_of(
            old_rust,
            pods,
            items.last(),
        )
    }
}

/// What the foreign functions of all the foreign blocks among `items`
/// become, in order. A function is converted with the aggregates that
/// stand before its block.
pub open spec fn foreign_functions(pods: Set<Text>, items: Seq<SpecItem>) -> Seq<SpecForeignItem>
    decreases items.len(),
{
    if items.len() == 0 {
        Seq::empty()
    } else {
        let before = items.drop_last();
        let rest = foreign_functions(pods, before);
        match items.last() {
            SpecItem::ForeignMod(fm) => rest + convert_foreign_mod_items(
                struct_names(before),
                class_names(pods, before),
                fm.items,
            ),
            _ => rest,
        }
    }
}

/// The first foreign block among `items`.
pub open spec fn first_foreign_mod(items: Seq<SpecItem>) -> Option<SpecItemForeignMod>
    decreases items.len(),
{
    if items.len() == 0 {
        None
    } else {
        match first_foreign_mod(items.drop_last()) {
            Some(fm) => Some(fm),
            None => match items.last() {
                SpecItem::ForeignMod(fm) => Some(fm),
                _ => None,
            },
        }
    }
}

/// Whether a foreign block among `items` holds an item that is no function.
pub open spec fn has_unknown_foreign_item(items: Seq<SpecItem>) -> bool {
    exists|i: int|
        0 <= i < items.len() && (#[trigger] items[i] matches SpecItem::ForeignMod(fm)
            && !all_functions(fm.items))
}

/// The directives that bring in the native headers: one for each header of
/// the list, then one for the extra header where there is one.
pub open spec fn header_items(include_list: Seq<Text>, extra: Option<Text>) -> Seq<
    SpecForeignItem,
> {
    let listed = include_list.map_values(|h: Text| SpecForeignItem::Header(h));
    match extra {
        Some(h) => listed.push(SpecForeignItem::Header(h)),
        None => listed,
    }
}

/// The one foreign block of the bridge module, where the items hold a
/// foreign block: attributes and ABI of the first block, the header
/// directives, then the functions of all the blocks.
pub open spec fn merged_foreign_mod(
    include_list: Seq<Text>,
    extra: Option<Text>,
    pods: Set<Text>,
    items: Seq<SpecItem>,
) -> Seq<SpecItem> {
    match first_foreign_mod(items) {
        Some(fm) => seq![
            SpecItem::ForeignMod(
                SpecItemForeignMod {
                    attrs: fm.attrs,
                    unsafety: fm.unsafety,
                    abi: fm.abi,
                    items: header_items(include_list, extra) + foreign_functions(pods, items),
                },
            ),
        ],
        None => Seq::empty(),
    }
}

/// What one item leaves outside the bridge module: for an implementation
/// block what takes the place of its constructors, nothing for a foreign
/// block, an aggregate or an enum, and any other item as it is.
pub open spec fn outer_items_of(item: SpecItem) -> Seq<SpecItem> {
    match item {
        SpecItem::ForeignMod(_) => Seq::empty(),
        SpecItem::Struct(_) => Seq::empty(),
        SpecItem::Enum(_) => Seq::empty(),
        SpecItem::Impl(i) => convert_impl(i),
        _ => seq![item],
    }
}

/// What the items leave outside the bridge module, in order.
pub open spec fn outer_items(items: Seq<SpecItem>) -> Seq<SpecItem>
    decreases items.len(),
{
    if items.len() == 0 {
        Seq::empty()
    } else {
        outer_items(items.drop_last()) + outer_items_of(items.last())
    }
}

/// The record of each aggregate and each enum among `items`, in order.
pub open spec fn encountered_types(items: Seq<SpecItem>) -> Seq<SpecEncounteredType>
    decreases items.len(),
{
    if items.len() == 0 {
        Seq::empty()
    } else {
        let rest = encountered_types(items.drop_last());
        match items.last() {
            SpecItem::Struct(s) => rest.push(
                SpecEncounteredType { kind: EncounteredTypeKind::Struct, name: s.ident },
            ),
            SpecItem::Enum(e) => rest.push(
                SpecEncounteredType { kind: EncounteredTypeKind::Enum, name: e.ident },
            ),
            _ => rest,
        }
    }
}

/// The factories that the implementation blocks among `items` ask for, in
/// order.
pub open spec fn additional_needs(items: Seq<SpecItem>) -> Seq<SpecAdditionalNeed>
    decreases items.len(),
{
    if items.len() == 0 {
        Seq::empty()
    } else {
        let rest = additional_needs(items.drop_last());
        match items.last() {
            SpecItem::Impl(i) => rest + needs_of_impl(i),
            _ => rest,
        }
    }
}

/// The bridge module that holds `content`.
pub open spec fn bridge_module(content: Seq<SpecItem>) -> SpecItem {
    SpecItem::Mod(
        SpecItemMod {
            attrs: seq![SpecAttribute { path: seq!["cxx"@, "bridge"@], tokens: Seq::empty() }],
            vis: "pub"@,
            ident: "cxxbridge"@,
            content: Some(content),
        },
    )
}

/// What the conversion of the items of a module yields, once the names
/// `pods` are known to be passed by value.
pub open spec fn conversion(
    c: SpecBridgeConverter,
    extra: Option<Text>,
    pods: Set<Text>,
    items: Seq<SpecItem>,
) -> SpecBridgeConversion {
    SpecBridgeConversion {
        items: outer_items(items).push(
            bridge_module(
                bridge_items(c.old_rust, pods, items) + merged_foreign_mod(
                    c.include_list,
                    extra,
                    pods,
                    items,
                ),
            ),
        ),
        types_to_disable: encountered_types(items),
        additional_cpp_needs: additional_needs(items),
    }
}

} // verus!
