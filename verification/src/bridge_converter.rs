//! The rewriter: turns the items of a module of low-level bindings into a
//! bridge module, and records the types it has dealt with and the native
//! helper code that the result needs.
use vstd::prelude::*;
use crate::byvalue_checker::{
    ByValueChecker, Verdicts, name_of_path, offending, reached, refusal, typename_of,
};
use crate::conversion_spec::{
    EncounteredTypeKind, SpecAdditionalNeed, SpecBridgeConversion, SpecBridgeConverter,
    SpecEncounteredType, additional_needs, aggregates_of, all_functions, any_this,
    append_cpp_definition_squasher, bridge_items, bridge_module, class_names, class_prefix_len,
    constructor_args, constructor_name, conversion, convert_enum, convert_fn_arg,
    convert_fn_args, convert_foreign_fn, convert_foreign_mod_items, convert_impl,
    convert_struct, encountered_types, first_foreign_mod, foreign_functions,
    forward_declaration, generate_type_alias, has_unknown_foreign_item, header_items,
    is_constructor_name, is_this, make_unique_impl, make_unique_impls, make_unique_needs,
    merged_foreign_mod, method_name, needs_of_impl, outer_items, strip_attr, struct_names,
    value_safe_names, value_safety_violated,
};
use crate::known_types::replace_known;
use crate::names::{TypeName, type_names};
use crate::syntax::{
    Attribute, Block, Field, FnArg, ForeignItem, ForeignItemFn, GenericArgument, ImplItem,
    ImplItemMethod, Item, ItemEnum, ItemForeignMod, ItemImpl, ItemMod, ItemStruct, PatIdent,
    PatType, PathArguments, PathSegment, Pattern, Signature, Type, TypePath, TypePtr,
    TypeReference, args_view, arguments_view, attrs_view, clone_type, fields_view,
    foreign_items_view, generic_argument_view, impl_items_view, item_view, items_view, mod_view,
    opt_type_view,
    segment_view, type_path_view,
};
use crate::syntax_model::{
    SpecAttribute, SpecFnArg, SpecForeignItem, SpecGenericArgument, SpecImplItem, SpecItem,
    SpecPathArguments, SpecPathSegment, SpecType, SpecTypePath, Text,
};
use crate::text::{clone_opt_text, has_prefix, join_pair, opt_text, same_text, texts};
use crate::type_conversion::{
    convert_arguments, convert_generic_argument, convert_ptr_to_reference, convert_return_type,
    convert_segment, convert_type, convert_type_path,
};

verus! {

/// Why a conversion failed.
#[derive(Debug, PartialEq, Eq)]
pub enum ConvertError {
    /// The module has no body.
    NoContent,
    /// A type that was requested to be passed by value cannot be; the text
    /// is the name of the first offending type that was met.
    UnsafePODType(String),
    /// A foreign block holds an item that is no function.
    UnknownForeignItem,
}

/// A type that the rewriter has dealt with, so that nothing downstream
/// defines it again.
#[derive(Debug, Clone, PartialEq, Eq)]
pub struct EncounteredType(pub EncounteredTypeKind, pub TypeName);

impl View for EncounteredType {
    type V = SpecEncounteredType;

    open spec fn view(&self) -> SpecEncounteredType {
        SpecEncounteredType { kind: self.0, name: self.1@ }
    }
}

/// The models of a sequence of records.
pub open spec fn encountered_view(v: Seq<EncounteredType>) -> Seq<SpecEncounteredType> {
    v.map_values(|e: EncounteredType| e@)
}

/// A request for native helper code.
#[derive(Debug, Clone, PartialEq, Eq)]
pub enum AdditionalNeed {
    /// A factory for the type, with the types of the constructor's
    /// arguments.
    MakeUnique(TypeName, Vec<TypeName>),
}

impl View for AdditionalNeed {
    type V = SpecAdditionalNeed;

    open spec fn view(&self) -> SpecAdditionalNeed {
        match self {
            AdditionalNeed::MakeUnique(ty, args) => SpecAdditionalNeed::MakeUnique(
                ty@,
                type_names(args@),
            ),
        }
    }
}

/// The models of a sequence of requests.
pub open spec fn needs_view(v: Seq<AdditionalNeed>) -> Seq<SpecAdditionalNeed> {
    v.map_values(|n: AdditionalNeed| n@)
}

/// What a conversion yields: the items of the new module, the types that
/// were dealt with, and the native helper code that is needed.
#[derive(Debug, PartialEq, Eq)]
pub struct BridgeConversion {
    pub items: Vec<Item>,
    pub types_to_disable: Vec<EncounteredType>,
    pub additional_cpp_needs: Vec<AdditionalNeed>,
}

impl View for BridgeConversion {
    type V = SpecBridgeConversion;

    open spec fn view(&self) -> SpecBridgeConversion {
        SpecBridgeConversion {
            items: items_view(self.items@),
            types_to_disable: encountered_view(self.types_to_disable@),
            additional_cpp_needs: needs_view(self.additional_cpp_needs@),
        }
    }
}

/// The rewriter's settings: the native headers to bring in, the types that
/// are requested to be passed by value, and whether the target is a legacy
/// one that takes no forward declarations.
#[derive(Debug)]
pub struct BridgeConverter {
    include_list: Vec<String>,
    pod_requests: Vec<TypeName>,
    old_rust: bool,
}

impl View for BridgeConverter {
    type V = SpecBridgeConverter;

    closed spec fn view(&self) -> SpecBridgeConverter {
        SpecBridgeConverter {
            include_list: texts(self.include_list@),
            pod_requests: type_names(self.pod_requests@),
            old_rust: self.old_rust,
        }
    }
}

impl BridgeConverter {
    /// A rewriter with the given settings.
    pub fn new(include_list: Vec<String>, pod_requests: Vec<TypeName>, old_rust: bool) -> (r: Self)
        ensures
            r@ == (SpecBridgeConverter {
                include_list: texts(include_list@),
                pod_requests: type_names(pod_requests@),
                old_rust,
            }),
    {
        Self { include_list, old_rust, pod_requests }
    }

    /// A definition for the bridge module, with the forward declaration of
    /// its type before it unless the target is a legacy one.
    pub fn append_cpp_definition_squasher(&self, ident: &str, item: Item) -> (r: Vec<Item>)
        ensures
            items_view(r@) == append_cpp_definition_squasher(self@.old_rust, ident@, item@),
    {
        let mut out: Vec<Item> = Vec::new();
        if !self.old_rust {
            out.push(forward_declare(ident));
        }
        out.push(item);
        assert(items_view(out@) =~= append_cpp_definition_squasher(self@.old_rust, ident@, item@));
        out
    }

    /// The directives that bring in the native headers.
    fn header_directives(&self, extra_inclusion: Option<&str>) -> (r: Vec<ForeignItem>)
        ensures
            foreign_items_view(r@) == header_items(
                self@.include_list,
                match extra_inclusion {
                    Some(h) => Some(h@),
                    None => None,
                },
            ),
    {
        let mut out: Vec<ForeignItem> = Vec::new();
        let mut i: usize = 0;
        while i < self.include_list.len()
            invariant
                i <= self.include_list.len(),
                out.len() == i,
                forall|k: int|
                    0 <= k < i ==> (#[trigger] out[k])@ == SpecForeignItem::Header(
                        self.include_list[k]@,
                    ),
            decreases self.include_list.len() - i,
        {
            out.push(ForeignItem::Header(self.include_list[i].clone()));
            i += 1;
        }
        let ghost listed = texts(self.include_list@).map_values(
            |h: Text| SpecForeignItem::Header(h),
        );
        assert(foreign_items_view(out@) =~= listed);
        match extra_inclusion {
            Some(h) => {
                out.push(ForeignItem::Header(String::from_str(h)));
                assert(foreign_items_view(out@) =~= listed.push(SpecForeignItem::Header(h@)));
            },
            None => {},
        }
        out
    }
}

proof fn lemma_strip_attr_push(s: Seq<SpecAttribute>, a: SpecAttribute, name: Text)
    ensures
        strip_attr(s.push(a), name) == if a.is_named(name) {
            strip_attr(s, name)
        } else {
            strip_attr(s, name).push(a)
        },
{
    reveal(Seq::filter);
    assert(s.push(a).drop_last() =~= s);
}

/// Whether the path of `a` is the single identifier `name`.
fn attr_is_named(a: &Attribute, name: &str) -> (r: bool)
    ensures
        r == a@.is_named(name@),
{
    a.path.len() == 1 && same_text(a.path[0].as_str(), name)
}

/// Whether `name` is the constructor's name of one of `types`.
fn is_constructor_of(types: &Vec<TypeName>, name: &str) -> (r: bool)
    ensures
        r == is_constructor_name(type_names(types@), name@),
{
    let mut i: usize = 0;
    while i < types.len()
        invariant
            i <= types.len(),
            forall|k: int| 0 <= k < i ==> name@ != constructor_name((#[trigger] types[k])@),
        decreases types.len() - i,
    {
        let ty = types[i].as_str();
        let head = join_pair(ty, "_");
        let full = join_pair(head.as_str(), ty);
        if same_text(name, full.as_str()) {
            assert(type_names(types@)[i as int] == types[i as int]@);
            return true;
        }
        i += 1;
    }
    assert(!is_constructor_name(type_names(types@), name@)) by {
        if is_constructor_name(type_names(types@), name@) {
            let k = choose|k: int|
                0 <= k < type_names(types@).len() && name@ == constructor_name(
                    #[trigger] type_names(types@)[k],
                );
            assert(type_names(types@)[k] == types[k]@);
        }
    }
    false
}

/// The name of a method without the name of its class.
fn strip_class_name(classes: &Vec<TypeName>, name: &str) -> (r: String)
    ensures
        r@ == method_name(type_names(classes@), name@),
{
    let n = name.unicode_len();
    let mut best: usize = 0;
    let mut i: usize = 0;
    let ghost all = type_names(classes@);
    proof {
        assert(all.take(0) =~= Seq::<Text>::empty());
    }
    while i < classes.len()
        invariant
            i <= classes.len(),
            n == name@.len(),
            all == type_names(classes@),
            best == class_prefix_len(all.take(i as int), name@),
            best <= n,
        decreases classes.len() - i,
    {
        proof {
            assert(all.take(i + 1).drop_last() =~= all.take(i as int));
            assert(all.take(i + 1).last() == classes[i as int]@);
        }
        let class = classes[i].as_str();
        let len = class.unicode_len();
        if len < n && n - len > 1 {
            let head = join_pair(class, "_");
            proof {
                reveal_strlit("_");
                assert(head@.len() == len + 1);
            }
            if has_prefix(name, head.as_str()) && len + 1 > best {
                best = len + 1;
            }
        }
        i += 1;
    }
    proof {
        assert(all.take(all.len() as int) =~= all);
    }
    let tail = name.substring_char(best, n);
    assert(tail@ =~= name@.skip(best as int));
    String::from_str(tail)
}

/// The declaration that the type `name` is defined on the native side.
fn forward_declare(name: &str) -> (r: Item)
    ensures
        r@ == forward_declaration(name@),
{
    let mut items: Vec<ForeignItem> = Vec::new();
    items.push(ForeignItem::Type(String::from_str(name)));
    let r = Item::ForeignMod(
        ItemForeignMod {
            attrs: Vec::new(),
            unsafety: true,
            abi: String::from_str("C++"),
            items,
        },
    );
    proof {
        let m = forward_declaration(name@)->ForeignMod_0;
        assert(foreign_items_view(items@) =~= m.items);
        assert(attrs_view(Seq::<Attribute>::empty()) =~= m.attrs);
    }
    r
}

/// The path-shaped type of one segment.
fn single_segment_path(ident: String, arguments: PathArguments) -> (r: Type)
    ensures
        r@ == SpecType::Path(
            SpecTypePath {
                qself: None,
                leading_colon: false,
                segments: seq![SpecPathSegment { ident: ident@, arguments: arguments@ }],
            },
        ),
{
    let mut segments: Vec<PathSegment> = Vec::new();
    segments.push(PathSegment { ident, arguments });
    let path = TypePath { qself: None, leading_colon: false, segments };
    proof {
        let want = seq![SpecPathSegment { ident: ident@, arguments: arguments@ }];
        assert(segment_view(segments[0]) == want[0]);
        assert(type_path_view(path).segments =~= want);
    }
    Type::Path(path)
}

/// The arguments `<t>`.
fn one_type_argument(t: Type) -> (r: PathArguments)
    ensures
        r@ == SpecPathArguments::AngleBracketed(seq![SpecGenericArgument::Type(t@)]),
{
    let mut args: Vec<GenericArgument> = Vec::new();
    args.push(GenericArgument::Type(t));
    let r = PathArguments::AngleBracketed(args);
    proof {
        let want = seq![SpecGenericArgument::Type(t@)];
        assert(generic_argument_view(args[0]) == want[0]);
        assert(arguments_view(r)->AngleBracketed_0 =~= want);
    }
    r
}

impl BridgeConverter {
    /// Converts a type to the bridge's form.
    pub fn convert_type(&self, ty: &Type) -> (r: Type)
        ensures
            r@ == convert_type(ty@),
        decreases ty,
    {
        match ty {
            Type::Path(p) => Type::Path(self.convert_type_path(p)),
            Type::Reference(r) => Type::Reference(
                TypeReference {
                    lifetime: clone_opt_text(&r.lifetime),
                    mutable: r.mutable,
                    elem: Box::new(self.convert_type(&r.elem)),
                },
            ),
            Type::Ptr(ptr) => Type::Reference(self.convert_ptr_to_reference(ptr)),
            Type::Other(s) => Type::Other(s.clone()),
        }
    }

    /// Turns a raw pointer into a reference.
    pub fn convert_ptr_to_reference(&self, ptr: &TypePtr) -> (r: TypeReference)
        ensures
            r@ == convert_ptr_to_reference(ptr@),
        decreases ptr,
    {
        TypeReference {
            lifetime: None,
            mutable: ptr.mutable,
            elem: Box::new(self.convert_type(&ptr.elem)),
        }
    }

    /// Converts a path-shaped type: the registry's name for the last segment, and
    /// converted type arguments throughout.
    pub fn convert_type_path(&self, typ: &TypePath) -> (r: TypePath)
        ensures
            r@ == convert_type_path(typ@),
        decreases typ,
    {
        let n = typ.segments.len();
        let mut segments: Vec<PathSegment> = Vec::new();
        let mut i: usize = 0;
        while i < n
            invariant
                n == typ.segments.len(),
                i <= n,
                segments.len() == i,
                forall|k: int|
                    0 <= k < i ==> segment_view(#[trigger] segments[k]) == convert_segment(
                        segment_view(typ.segments[k]),
                        k == n - 1,
                    ),
            decreases n - i,
        {
            let s = &typ.segments[i];
            let ident = if i == n - 1 {
                replace_known(s.ident.as_str())
            } else {
                s.ident.clone()
            };
            let arguments = match &s.arguments {
                PathArguments::AngleBracketed(args) => PathArguments::AngleBracketed(
                    self.convert_punctuated(args),
                ),
                PathArguments::Parenthesized(t) => PathArguments::Parenthesized(t.clone()),
                PathArguments::Empty => PathArguments::Empty,
            };
            segments.push(PathSegment { ident, arguments });
            i += 1;
        }
        let r = TypePath {
            qself: clone_opt_text(&typ.qself),
            leading_colon: typ.leading_colon,
            segments,
        };
        assert(r@.segments =~= convert_type_path(typ@).segments);
        r
    }

    /// Converts each type among a list of generic arguments.
    pub fn convert_punctuated(&self, pun: &Vec<GenericArgument>) -> (r: Vec<GenericArgument>)
        ensures
            arguments_view(PathArguments::AngleBracketed(r)) == convert_arguments(
                arguments_view(PathArguments::AngleBracketed(*pun)),
            ),
        decreases pun,
    {
        let mut new_pun: Vec<GenericArgument> = Vec::new();
        let mut i: usize = 0;
        while i < pun.len()
            invariant
                i <= pun.len(),
                new_pun.len() == i,
                forall|k: int|
                    0 <= k < i ==> generic_argument_view(#[trigger] new_pun[k])
                        == convert_generic_argument(generic_argument_view(pun[k])),
            decreases pun.len() - i,
        {
            let arg = match &pun[i] {
                GenericArgument::Type(t) => GenericArgument::Type(self.convert_type(t)),
                GenericArgument::Other(s) => GenericArgument::Other(s.clone()),
            };
            new_pun.push(arg);
            i += 1;
        }
        assert(arguments_view(PathArguments::AngleBracketed(new_pun))->AngleBracketed_0
            =~= convert_arguments(
            arguments_view(PathArguments::AngleBracketed(*pun)),
        )->AngleBracketed_0);
        new_pun
    }
}

impl BridgeConverter {
    /// The attributes of `attrs` but those named `to_strip`.
    pub fn strip_attr(&self, attrs: Vec<Attribute>, to_strip: &str) -> (r: Vec<Attribute>)
        ensures
            attrs_view(r@) == strip_attr(attrs_view(attrs@), to_strip@),
    {
        let ghost all = attrs_view(attrs@);
        let mut out: Vec<Attribute> = Vec::new();
        proof {
            reveal(Seq::filter);
            assert(attrs_view(out@) =~= strip_attr(all.take(0), to_strip@));
        }
        for a in it: attrs
            invariant
                all == attrs_view(it.seq()),
                it.seq() == attrs@,
                attrs_view(out@) == strip_attr(all.take(it.index() as int), to_strip@),
        {
            proof {
                let k = it.index() as int;
                assert(all.take(k + 1) =~= all.take(k).push(a@));
                lemma_strip_attr_push(all.take(k), a@, to_strip@);
            }
            if !attr_is_named(&a, to_strip) {
                let ghost before = out@;
                out.push(a);
                assert(attrs_view(out@) =~= attrs_view(before).push(a@));
            }
        }
        proof {
            assert(all.take(all.len() as int) =~= all);
        }
        out
    }

    /// Converts a parameter; the flag says whether it was the receiver `this`.
    pub fn convert_fn_arg(&self, arg: FnArg) -> (r: (FnArg, bool))
        ensures
            r.0@ == convert_fn_arg(arg@),
            r.1 == is_this(arg@),
    {
        match arg {
            FnArg::Typed(pt) => {
                let ty = self.convert_type(&pt.ty);
                match pt.pat {
                    Pattern::Ident(pp) => {
                        if same_text(pp.ident.as_str(), "this") {
                            let new_pat = Pattern::Ident(
                                PatIdent {
                                    attrs: pp.attrs,
                                    by_ref: pp.by_ref,
                                    mutable: pp.mutable,
                                    ident: String::from_str("self"),
                                    subpat: pp.subpat,
                                },
                            );
                            (FnArg::Typed(PatType { attrs: pt.attrs, pat: new_pat, ty }), true)
                        } else {
                            (
                                FnArg::Typed(
                                    PatType { attrs: pt.attrs, pat: Pattern::Ident(pp), ty },
                                ),
                                false,
                            )
                        }
                    },
                    Pattern::Other(t) => (
                        FnArg::Typed(PatType { attrs: pt.attrs, pat: Pattern::Other(t), ty }),
                        false,
                    ),
                }
            },
            FnArg::Receiver(t) => (FnArg::Receiver(t), false),
        }
    }

    /// Converts a return type.
    pub fn convert_return_type(&self, rt: Option<Type>) -> (r: Option<Type>)
        ensures
            opt_type_view(r) == convert_return_type(opt_type_view(rt)),
    {
        match rt {
            None => None,
            Some(t) => Some(self.convert_type(&t)),
        }
    }

    /// Converts a foreign function: `None` where it is the constructor of one of
    /// `encountered_types`, which a factory takes the place of. Else its types
    /// are converted, a receiver `this` becomes `self`, the name of a method
    /// loses the name of its class (the longest of `class_names` that fits),
    /// and `link_name` attributes go.
    pub fn convert_foreign_fn(
        &self,
        encountered_types: &Vec<TypeName>,
        class_names: &Vec<TypeName>,
        fun: ForeignItemFn,
    ) -> (r: Option<ForeignItemFn>)
        ensures
            match r {
                Some(f) => convert_foreign_fn(
                    type_names(encountered_types@),
                    type_names(class_names@),
                    fun@,
                ) == Some(f@),
                None => convert_foreign_fn(
                    type_names(encountered_types@),
                    type_names(class_names@),
                    fun@,
                ) is None,
            },
    {
        if is_constructor_of(encountered_types, fun.sig.ident.as_str()) {
            return None;
        }
        let sig = fun.sig;
        let output = self.convert_return_type(sig.output);
        let ghost all = args_view(sig.inputs@);
        let mut new_params: Vec<FnArg> = Vec::new();
        let mut is_a_method = false;
        for arg in it: sig.inputs
            invariant
                all == args_view(it.seq()),
                it.seq() == sig.inputs@,
                new_params.len() == it.index(),
                forall|k: int|
                    0 <= k < it.index() ==> (#[trigger] new_params[k])@ == convert_fn_arg(all[k]),
                is_a_method == any_this(all.take(it.index() as int)),
        {
            let ghost k = it.index() as int;
            let (new_arg, this) = self.convert_fn_arg(arg);
            proof {
                assert(all[k] == arg@);
                let before = all.take(k);
                let after = all.take(k + 1);
                if any_this(before) {
                    let w = choose|w: int| 0 <= w < before.len() && is_this(#[trigger] before[w]);
                    assert(is_this(after[w]));
                }
                if this {
                    assert(is_this(after[k]));
                }
                if any_this(after) {
                    let w = choose|w: int| 0 <= w < after.len() && is_this(#[trigger] after[w]);
                    if w < k {
                        assert(is_this(before[w]));
                    }
                }
            }
            new_params.push(new_arg);
            is_a_method = is_a_method || this;
        }
        proof {
            assert(all.take(all.len() as int) =~= all);
            assert(args_view(new_params@) =~= convert_fn_args(all));
        }
        let ident = if is_a_method {
            strip_class_name(class_names, sig.ident.as_str())
        } else {
            sig.ident
        };
        Some(
            ForeignItemFn {
                attrs: self.strip_attr(fun.attrs, "link_name"),
                vis: fun.vis,
                sig: Signature {
                    qualifiers: sig.qualifiers,
                    unsafety: sig.unsafety,
                    ident,
                    generics: sig.generics,
                    inputs: new_params,
                    variadic: sig.variadic,
                    output,
                },
            },
        )
    }

    /// Converts the items of a foreign block. Only functions are known there:
    /// any other item refuses the block.
    pub fn convert_foreign_mod_items(
        &self,
        encountered_types: &Vec<TypeName>,
        class_names: &Vec<TypeName>,
        foreign_mod_items: Vec<ForeignItem>,
    ) -> (r: Result<Vec<ForeignItem>, ConvertError>)
        ensures
            match r {
                Ok(v) => all_functions(foreign_items_view(foreign_mod_items@)) && foreign_items_view(
                    v@,
                ) == convert_foreign_mod_items(
                    type_names(encountered_types@),
                    type_names(class_names@),
                    foreign_items_view(foreign_mod_items@),
                ),
                Err(e) => e is UnknownForeignItem && !all_functions(
                    foreign_items_view(foreign_mod_items@),
                ),
            },
    {
        let ghost all = foreign_items_view(foreign_mod_items@);
        let ghost types = type_names(encountered_types@);
        let ghost classes = type_names(class_names@);
        let mut new_items: Vec<ForeignItem> = Vec::new();
        proof {
            assert(all.take(0) =~= Seq::<SpecForeignItem>::empty());
            assert(foreign_items_view(new_items@) =~= Seq::<SpecForeignItem>::empty());
        }
        for i in it: foreign_mod_items
            invariant
                all == foreign_items_view(it.seq()),
                it.seq() == foreign_mod_items@,
                types == type_names(encountered_types@),
                classes == type_names(class_names@),
                all_functions(all.take(it.index() as int)),
                foreign_items_view(new_items@) == convert_foreign_mod_items(
                    types,
                    classes,
                    all.take(it.index() as int),
                ),
        {
            let ghost k = it.index() as int;
            proof {
                assert(all[k] == i@);
                assert(all.take(k + 1).drop_last() =~= all.take(k));
                assert(all.take(k + 1).last() == i@);
            }
            match i {
                ForeignItem::Fn(f) => {
                    let maybe_foreign_item = self.convert_foreign_fn(
                        encountered_types,
                        class_names,
                        f,
                    );
                    match maybe_foreign_item {
                        Some(foreign_item) => {
                            let ghost before = new_items@;
                            new_items.push(ForeignItem::Fn(foreign_item));
                            assert(foreign_items_view(new_items@) =~= foreign_items_view(before).push(
                                SpecForeignItem::Fn(foreign_item@),
                            ));
                        },
                        None => {},
                    }
                    proof {
                        assert forall|w: int| 0 <= w < k + 1 implies #[trigger] all.take(
                            k + 1,
                        )[w] is Fn by {
                            if w < k {
                                assert(all.take(k)[w] is Fn);
                            }
                        }
                    }
                },
                _ => {
                    proof {
                        assert(!(all[k] is Fn));
                    }
                    return Err(ConvertError::UnknownForeignItem);
                },
            }
        }
        proof {
            assert(all.take(all.len() as int) =~= all);
        }
        Ok(new_items)
    }

    /// The name of a type, where it is path-shaped.
    pub fn type_to_typename(&self, ty: &Type) -> (r: Option<TypeName>)
        ensures
            match r {
                Some(n) => typename_of(ty@) == Some(n@),
                None => typename_of(ty@) is None,
            },
    {
        match ty {
            Type::Path(pn) => name_of_path(pn),
            _ => None,
        }
    }

    /// An aggregate that is passed by value, as the bridge gets it.
    pub fn convert_struct(&self, ty: ItemStruct) -> (r: Item)
        ensures
            r@ == SpecItem::Struct(convert_struct(ty@)),
    {
        Item::Struct(ItemStruct {
            attrs: self.strip_attr(ty.attrs, "repr"),
            vis: ty.vis,
            ident: ty.ident,
            generics: ty.generics,
            fields: ty.fields,
        })
    }

    /// An enum as the bridge gets it.
    pub fn convert_enum(&self, ty: ItemEnum) -> (r: Item)
        ensures
            r@ == SpecItem::Enum(convert_enum(ty@)),
    {
        Item::Enum(ItemEnum {
            attrs: self.strip_attr(self.strip_attr(ty.attrs, "repr"), "derive"),
            vis: ty.vis,
            ident: ty.ident,
            generics: ty.generics,
            variants: ty.variants,
        })
    }

    /// What stands for the opaque aggregate `tyname` in the bridge module.
    pub fn generate_type_alias(&self, tyname: &str) -> (r: Vec<Item>)
        ensures
            items_view(r@) == generate_type_alias(tyname@),
    {
        let mut alias_items: Vec<ForeignItem> = Vec::new();
        alias_items.push(ForeignItem::Type(String::from_str(tyname)));
        let alias = Item::ForeignMod(
            ItemForeignMod {
                attrs: Vec::new(),
                unsafety: false,
                abi: String::from_str("C"),
                items: alias_items,
            },
        );
        let inner = single_segment_path(String::from_str(tyname), PathArguments::Empty);
        let pointer = single_segment_path(String::from_str("UniquePtr"), one_type_argument(inner));
        let mut fields: Vec<Field> = Vec::new();
        fields.push(
            Field {
                attrs: Vec::new(),
                vis: String::new(),
                ident: Some(String::from_str("_0")),
                ty: pointer,
            },
        );
        let nonsense_struct_name = join_pair(tyname, "ContainingStruct");
        let holder = Item::Struct(
            ItemStruct {
                attrs: Vec::new(),
                vis: String::new(),
                ident: nonsense_struct_name,
                generics: String::new(),
                fields,
            },
        );
        proof {
            let want = generate_type_alias(tyname@);
            let m = want[0]->ForeignMod_0;
            assert(foreign_items_view(alias_items@) =~= m.items);
            assert(attrs_view(Seq::<Attribute>::empty()) =~= Seq::<SpecAttribute>::empty());
            assert(alias@ == want[0]);
            let h = want[1]->Struct_0;
            assert(fields_view(fields@) =~= h.fields);
            assert(holder@ == want[1]);
        }
        let mut out: Vec<Item> = Vec::new();
        out.push(alias);
        out.push(holder);
        assert(items_view(out@) =~= generate_type_alias(tyname@));
        out
    }

    /// The names of the types of a constructor's parameters.
    fn constructor_arg_types(&self, inputs: &Vec<FnArg>) -> (r: Vec<TypeName>)
        ensures
            type_names(r@) == constructor_args(args_view(inputs@)),
    {
        let ghost all = args_view(inputs@);
        let mut out: Vec<TypeName> = Vec::new();
        let mut i: usize = 0;
        proof {
            assert(all.take(0) =~= Seq::<SpecFnArg>::empty());
            assert(type_names(out@) =~= Seq::<Text>::empty());
        }
        while i < inputs.len()
            invariant
                i <= inputs.len(),
                all == args_view(inputs@),
                type_names(out@) == constructor_args(all.take(i as int)),
            decreases inputs.len() - i,
        {
            proof {
                assert(all.take(i + 1).drop_last() =~= all.take(i as int));
                assert(all.take(i + 1).last() == inputs[i as int]@);
            }
            match &inputs[i] {
                FnArg::Typed(pt) => {
                    match self.type_to_typename(&pt.ty) {
                        Some(n) => {
                            let ghost before = out@;
                            out.push(n);
                            assert(type_names(out@) =~= type_names(before).push(n@));
                        },
                        None => {},
                    }
                },
                FnArg::Receiver(_) => {},
            }
            i += 1;
        }
        proof {
            assert(all.take(all.len() as int) =~= all);
        }
        out
    }

    /// What an implementation block leaves outside the bridge module, and the
    /// factories it asks for. Each method named `new` is a constructor: a
    /// factory is asked for in its place, and a block with the one method
    /// `make_unique` calls that factory. Nothing else of the block is kept.
    pub fn convert_impl(&self, i: ItemImpl) -> (r: (Vec<Item>, Vec<AdditionalNeed>))
        ensures
            items_view(r.0@) == convert_impl(i@),
            needs_view(r.1@) == needs_of_impl(i@),
    {
        let ghost iv = i@;
        let mut out: Vec<Item> = Vec::new();
        let mut needs: Vec<AdditionalNeed> = Vec::new();
        proof {
            assert(items_view(out@) =~= Seq::<SpecItem>::empty());
            assert(needs_view(needs@) =~= Seq::<SpecAdditionalNeed>::empty());
        }
        match self.type_to_typename(&i.self_ty) {
            None => {},
            Some(ty) => {
                let defaultness = i.defaultness;
                let generics = i.generics;
                let trait_ = i.trait_;
                let self_ty = i.self_ty;
                let ghost all = impl_items_view(i.items@);
                proof {
                    assert(all.take(0) =~= Seq::<SpecImplItem>::empty());
                }
                for item in it: i.items
                    invariant
                        all == impl_items_view(it.seq()),
                        all == iv.items,
                        defaultness == iv.defaultness,
                        generics@ == iv.generics,
                        opt_text(trait_) == iv.trait_,
                        self_ty@ == iv.self_ty,
                        items_view(out@) == make_unique_impls(iv, ty@, all.take(it.index() as int)),
                        needs_view(needs@) == make_unique_needs(ty@, all.take(it.index() as int)),
                {
                    let ghost k = it.index() as int;
                    proof {
                        assert(all[k] == item@);
                        assert(all.take(k + 1).drop_last() =~= all.take(k));
                        assert(all.take(k + 1).last() == item@);
                    }
                    match item {
                        ImplItem::Method(m) => {
                            if same_text(m.sig.ident.as_str(), "new") {
                                let ghost mv = m@;
                                let constructor_args = self.constructor_arg_types(&m.sig.inputs);
                                let ghost needs_before = needs@;
                                let need = AdditionalNeed::MakeUnique(
                                    ty.duplicate(),
                                    constructor_args,
                                );
                                needs.push(need);
                                let call_name = join_pair(ty.as_str(), "_make_unique");
                                let sig = m.sig;
                                let new_impl_method = ImplItem::Method(
                                    ImplItemMethod {
                                        attrs: Vec::new(),
                                        vis: m.vis,
                                        defaultness: m.defaultness,
                                        sig: Signature {
                                            qualifiers: sig.qualifiers,
                                            unsafety: false,
                                            ident: String::from_str("make_unique"),
                                            generics: sig.generics,
                                            inputs: sig.inputs,
                                            variadic: sig.variadic,
                                            output: sig.output,
                                        },
                                        block: Block::Call(call_name),
                                    },
                                );
                                let mut methods: Vec<ImplItem> = Vec::new();
                                methods.push(new_impl_method);
                                let block = ItemImpl {
                                    attrs: Vec::new(),
                                    defaultness,
                                    unsafety: false,
                                    generics: generics.clone(),
                                    trait_: clone_opt_text(&trait_),
                                    self_ty: clone_type(&self_ty),
                                    items: methods,
                                };
                                proof {
                                    let want = make_unique_impl(iv, ty@, mv)->Impl_0;
                                    assert(attrs_view(Seq::<Attribute>::empty()) =~= Seq::<
                                        SpecAttribute,
                                    >::empty());
                                    assert(impl_items_view(methods@) =~= want.items);
                                    assert(block@ == want);
                                }
                                let ghost out_before = out@;
                                out.push(Item::Impl(block));
                                proof {
                                    assert(items_view(out@) =~= items_view(out_before).push(
                                        make_unique_impl(iv, ty@, mv),
                                    ));
                                    assert(needs_view(needs@) =~= needs_view(needs_before).push(
                                        need@,
                                    ));
                                }
                            }
                        },
                        ImplItem::Other(_) => {},
                    }
                }
                proof {
                    assert(all.take(all.len() as int) =~= all);
                }
            },
        }
        (out, needs)
    }
}

/// The view of an optional string slice.
pub open spec fn opt_str(o: Option<&str>) -> Option<Text> {
    match o {
        Some(s) => Some(s@),
        None => None,
    }
}

/// What one pass over the items has gathered so far.
struct Pass {
    all_items: Vec<Item>,
    bridge_items: Vec<Item>,
    extern_c_mod: Option<ItemForeignMod>,
    additional_cpp_needs: Vec<AdditionalNeed>,
    types_to_disable: Vec<EncounteredType>,
    types_found: Vec<TypeName>,
    class_names_discovered: Vec<TypeName>,
}

impl Pass {
    /// Whether the pass holds what the items `done` yield.
    spec fn tracks(
        &self,
        c: SpecBridgeConverter,
        extra: Option<Text>,
        pods: Set<Text>,
        done: Seq<SpecItem>,
    ) -> bool {
        &&& items_view(self.all_items@) == outer_items(done)
        &&& items_view(self.bridge_items@) == bridge_items(c.old_rust, pods, done)
        &&& match first_foreign_mod(done) {
            Some(fm) => self.extern_c_mod matches Some(m) && attrs_view(m.attrs@) == fm.attrs
                && m.unsafety == fm.unsafety && m.abi@ == fm.abi && foreign_items_view(m.items@)
                == header_items(c.include_list, extra) + foreign_functions(pods, done),
            None => self.extern_c_mod is None,
        }
        &&& needs_view(self.additional_cpp_needs@) == additional_needs(done)
        &&& encountered_view(self.types_to_disable@) == encountered_types(done)
        &&& type_names(self.types_found@) == struct_names(done)
        &&& type_names(self.class_names_discovered@) == class_names(pods, done)
        &&& !has_unknown_foreign_item(done)
    }

    /// A pass that has seen no item.
    fn start(
        Ghost(c): Ghost<SpecBridgeConverter>,
        Ghost(extra): Ghost<Option<Text>>,
        Ghost(pods): Ghost<Set<Text>>,
    ) -> (r: Pass)
        ensures
            r.tracks(c, extra, pods, Seq::empty()),
    {
        let r = Pass {
            all_items: Vec::new(),
            bridge_items: Vec::new(),
            extern_c_mod: None,
            additional_cpp_needs: Vec::new(),
            types_to_disable: Vec::new(),
            types_found: Vec::new(),
            class_names_discovered: Vec::new(),
        };
        proof {
            assert(items_view(r.all_items@) =~= Seq::<SpecItem>::empty());
            assert(items_view(r.bridge_items@) =~= Seq::<SpecItem>::empty());
            assert(needs_view(r.additional_cpp_needs@) =~= Seq::<SpecAdditionalNeed>::empty());
            assert(encountered_view(r.types_to_disable@) =~= Seq::<SpecEncounteredType>::empty());
            assert(type_names(r.types_found@) =~= Seq::<Text>::empty());
            assert(type_names(r.class_names_discovered@) =~= Seq::<Text>::empty());
        }
        r
    }
}

proof fn lemma_unknown_foreign_item_push(done: Seq<SpecItem>, item: SpecItem)
    ensures
        has_unknown_foreign_item(done.push(item)) <==> has_unknown_foreign_item(done) || (
        item matches SpecItem::ForeignMod(fm) && !all_functions(fm.items)),
{
    let next = done.push(item);
    if has_unknown_foreign_item(done) {
        let i = choose|i: int|
            0 <= i < done.len() && (#[trigger] done[i] matches SpecItem::ForeignMod(fm)
                && !all_functions(fm.items));
        assert(next[i] == done[i]);
    }
    if item matches SpecItem::ForeignMod(fm) && !all_functions(fm.items) {
        assert(next[done.len() as int] == item);
    }
    if has_unknown_foreign_item(next) {
        let i = choose|i: int|
            0 <= i < next.len() && (#[trigger] next[i] matches SpecItem::ForeignMod(fm)
                && !all_functions(fm.items));
        if i < done.len() {
            assert(done[i] == next[i]);
        }
    }
}

impl BridgeConverter {
    /// Takes a foreign block into the pass: its functions are converted
    /// with the aggregates seen so far and join the one foreign block of the
    /// bridge module. The first block gives that block its attributes and
    /// its ABI, and the header directives are put before its functions.
    fn pass_foreign_mod(
        &self,
        pass: Pass,
        fm: ItemForeignMod,
        extra_inclusion: Option<&str>,
        Ghost(pods): Ghost<Set<Text>>,
        Ghost(done): Ghost<Seq<SpecItem>>,
    ) -> (r: Result<Pass, ConvertError>)
        requires
            pass.tracks(self@, opt_str(extra_inclusion), pods, done),
        ensures
            match r {
                Ok(p) => all_functions(fm@.items) && p.tracks(
                    self@,
                    opt_str(extra_inclusion),
                    pods,
                    done.push(SpecItem::ForeignMod(fm@)),
                ),
                Err(e) => e is UnknownForeignItem && !all_functions(fm@.items),
            },
    {
        let ghost item = SpecItem::ForeignMod(fm@);
        let ghost next = done.push(item);
        let ghost extra = opt_str(extra_inclusion);
        proof {
            assert(next.drop_last() =~= done);
            assert(next.last() == item);
            lemma_unknown_foreign_item_push(done, item);
        }
        let mut pass = pass;
        let converted = self.convert_foreign_mod_items(
            &pass.types_found,
            &pass.class_names_discovered,
            fm.items,
        );
        let mut converted = match converted {
            Ok(v) => v,
            Err(e) => {
                return Err(e);
            },
        };
        let mut merged = match pass.extern_c_mod.take() {
            Some(m) => m,
            None => {
                let headers = self.header_directives(extra_inclusion);
                proof {
                    assert(foreign_functions(pods, done) =~= Seq::<SpecForeignItem>::empty()) by {
                        lemma_no_functions_without_block(pods, done);
                    }
                    assert(header_items(self@.include_list, extra) + Seq::<
                        SpecForeignItem,
                    >::empty() =~= header_items(self@.include_list, extra));
                }
                ItemForeignMod {
                    attrs: fm.attrs,
                    unsafety: fm.unsafety,
                    abi: fm.abi,
                    items: headers,
                }
            },
        };
        let ghost before = merged.items@;
        let ghost added = converted@;
        merged.items.append(&mut converted);
        proof {
            assert(foreign_items_view(merged.items@) =~= foreign_items_view(before)
                + foreign_items_view(added));
            assert(foreign_items_view(merged.items@) =~= header_items(self@.include_list, extra)
                + foreign_functions(pods, next));
        }
        pass.extern_c_mod = Some(merged);
        Ok(pass)
    }

    /// Takes an aggregate into the pass. One that is passed by value gets
    /// its definition into the bridge module and its name among the class
    /// names; an opaque one is stood for by a type declared by name and a
    /// holder of an owning pointer. Either is recorded as dealt with.
    fn pass_struct(
        &self,
        pass: Pass,
        verdicts: &Verdicts,
        s: ItemStruct,
        Ghost(extra): Ghost<Option<Text>>,
        Ghost(done): Ghost<Seq<SpecItem>>,
    ) -> (r: Pass)
        requires
            pass.tracks(self@, extra, verdicts@, done),
        ensures
            r.tracks(self@, extra, verdicts@, done.push(SpecItem::Struct(s@))),
    {
        let ghost item = SpecItem::Struct(s@);
        let ghost next = done.push(item);
        let ghost pods = verdicts@;
        proof {
            assert(next.drop_last() =~= done);
            assert(next.last() == item);
            lemma_unknown_foreign_item_push(done, item);
        }
        let mut pass = pass;
        let tyname = TypeName::from_ident(&s.ident);
        let ghost found_before = pass.types_found@;
        pass.types_found.push(tyname.duplicate());
        proof {
            assert(type_names(pass.types_found@) =~= type_names(found_before).push(tyname@));
        }
        let should_be_pod = verdicts.is_pod(&tyname);
        let ghost disabled_before = pass.types_to_disable@;
        pass.types_to_disable.push(
            EncounteredType(EncounteredTypeKind::Struct, tyname.duplicate()),
        );
        proof {
            assert(encountered_view(pass.types_to_disable@) =~= encountered_view(
                disabled_before,
            ).push(SpecEncounteredType { kind: EncounteredTypeKind::Struct, name: tyname@ }));
        }
        let ghost bridge_before = pass.bridge_items@;
        if should_be_pod {
            let ghost classes_before = pass.class_names_discovered@;
            pass.class_names_discovered.push(tyname.duplicate());
            proof {
                assert(type_names(pass.class_names_discovered@) =~= type_names(
                    classes_before,
                ).push(tyname@));
            }
            let new_struct_def = self.convert_struct(s);
            let mut new_items = self.append_cpp_definition_squasher(
                tyname.as_str(),
                new_struct_def,
            );
            let ghost added = new_items@;
            pass.bridge_items.append(&mut new_items);
            proof {
                assert(items_view(pass.bridge_items@) =~= items_view(bridge_before) + items_view(
                    added,
                ));
            }
        } else {
            let mut new_items = self.generate_type_alias(tyname.as_str());
            let ghost added = new_items@;
            pass.bridge_items.append(&mut new_items);
            proof {
                assert(items_view(pass.bridge_items@) =~= items_view(bridge_before) + items_view(
                    added,
                ));
            }
        }
        proof {
            assert(outer_items(next) =~= outer_items(done));
        }
        pass
    }

    /// Takes an enum into the pass: its definition goes into the bridge
    /// module, and it is recorded as dealt with.
    fn pass_enum(
        &self,
        pass: Pass,
        e: ItemEnum,
        Ghost(extra): Ghost<Option<Text>>,
        Ghost(pods): Ghost<Set<Text>>,
        Ghost(done): Ghost<Seq<SpecItem>>,
    ) -> (r: Pass)
        requires
            pass.tracks(self@, extra, pods, done),
        ensures
            r.tracks(self@, extra, pods, done.push(SpecItem::Enum(e@))),
    {
        let ghost item = SpecItem::Enum(e@);
        let ghost next = done.push(item);
        proof {
            assert(next.drop_last() =~= done);
            assert(next.last() == item);
            lemma_unknown_foreign_item_push(done, item);
        }
        let mut pass = pass;
        let tyname = TypeName::from_ident(&e.ident);
        let ghost disabled_before = pass.types_to_disable@;
        pass.types_to_disable.push(EncounteredType(EncounteredTypeKind::Enum, tyname.duplicate()));
        proof {
            assert(encountered_view(pass.types_to_disable@) =~= encountered_view(
                disabled_before,
            ).push(SpecEncounteredType { kind: EncounteredTypeKind::Enum, name: tyname@ }));
        }
        let new_enum_def = self.convert_enum(e);
        let mut new_items = self.append_cpp_definition_squasher(tyname.as_str(), new_enum_def);
        let ghost bridge_before = pass.bridge_items@;
        let ghost added = new_items@;
        pass.bridge_items.append(&mut new_items);
        proof {
            assert(items_view(pass.bridge_items@) =~= items_view(bridge_before) + items_view(
                added,
            ));
            assert(outer_items(next) =~= outer_items(done));
        }
        pass
    }

    /// Takes an implementation block into the pass: what takes the place of
    /// its constructors stays outside the bridge module, and their factories
    /// are asked for.
    fn pass_impl(
        &self,
        pass: Pass,
        i: ItemImpl,
        Ghost(extra): Ghost<Option<Text>>,
        Ghost(pods): Ghost<Set<Text>>,
        Ghost(done): Ghost<Seq<SpecItem>>,
    ) -> (r: Pass)
        requires
            pass.tracks(self@, extra, pods, done),
        ensures
            r.tracks(self@, extra, pods, done.push(SpecItem::Impl(i@))),
    {
        let ghost item = SpecItem::Impl(i@);
        let ghost next = done.push(item);
        proof {
            assert(next.drop_last() =~= done);
            assert(next.last() == item);
            lemma_unknown_foreign_item_push(done, item);
        }
        let mut pass = pass;
        let (mut new_items, mut new_needs) = self.convert_impl(i);
        let ghost items_before = pass.all_items@;
        let ghost needs_before = pass.additional_cpp_needs@;
        let ghost added_items = new_items@;
        let ghost added_needs = new_needs@;
        pass.all_items.append(&mut new_items);
        pass.additional_cpp_needs.append(&mut new_needs);
        proof {
            assert(items_view(pass.all_items@) =~= items_view(items_before) + items_view(
                added_items,
            ));
            assert(needs_view(pass.additional_cpp_needs@) =~= needs_view(needs_before)
                + needs_view(added_needs));
            assert(bridge_items(self@.old_rust, pods, next) =~= bridge_items(
                self@.old_rust,
                pods,
                done,
            ));
        }
        pass
    }

    /// Takes any other item into the pass: it stays as it is, outside the
    /// bridge module.
    fn pass_other(
        &self,
        pass: Pass,
        item: Item,
        Ghost(extra): Ghost<Option<Text>>,
        Ghost(pods): Ghost<Set<Text>>,
        Ghost(done): Ghost<Seq<SpecItem>>,
    ) -> (r: Pass)
        requires
            pass.tracks(self@, extra, pods, done),
            item is Mod || item is Other,
        ensures
            r.tracks(self@, extra, pods, done.push(item@)),
    {
        let ghost next = done.push(item@);
        proof {
            assert(next.drop_last() =~= done);
            assert(next.last() == item@);
            lemma_unknown_foreign_item_push(done, item@);
        }
        let mut pass = pass;
        let ghost items_before = pass.all_items@;
        pass.all_items.push(item);
        proof {
            assert(items_view(pass.all_items@) =~= items_view(items_before) + seq![item@]);
            assert(bridge_items(self@.old_rust, pods, next) =~= bridge_items(
                self@.old_rust,
                pods,
                done,
            ));
        }
        pass
    }
}

proof fn lemma_no_functions_without_block(pods: Set<Text>, items: Seq<SpecItem>)
    requires
        first_foreign_mod(items) is None,
    ensures
        foreign_functions(pods, items) == Seq::<SpecForeignItem>::empty(),
    decreases items.len(),
{
    if items.len() > 0 {
        lemma_no_functions_without_block(pods, items.drop_last());
    }
}

impl BridgeConverter {
    /// Tells a checker of every aggregate among `items` and has it decide
    /// the requests to pass types by value.
    pub fn find_nested_pod_types(&self, items: &Vec<Item>) -> (r: Result<
        Verdicts,
        ConvertError,
    >)
        ensures
            match r {
                Ok(v) => refusal(aggregates_of(items_view(items@)), self@.pod_requests) is None
                    && !value_safety_violated(
                    aggregates_of(items_view(items@)),
                    self@.pod_requests,
                ) && v@ == value_safe_names(aggregates_of(items_view(items@)), self@.pod_requests),
                Err(e) => e matches ConvertError::UnsafePODType(n) && refusal(
                    aggregates_of(items_view(items@)),
                    self@.pod_requests,
                ) == Some(n@) && reached(
                    aggregates_of(items_view(items@)),
                    self@.pod_requests,
                    n@,
                ) && offending(aggregates_of(items_view(items@)), n@),
            },
    {
        let ghost all = items_view(items@);
        let mut byvalue_checker = ByValueChecker::new();
        let mut i: usize = 0;
        proof {
            assert(all.take(0) =~= Seq::<SpecItem>::empty());
        }
        while i < items.len()
            invariant
                i <= items.len(),
                all == items_view(items@),
                byvalue_checker@ == aggregates_of(all.take(i as int)),
            decreases items.len() - i,
        {
            proof {
                assert(all.take(i + 1).drop_last() =~= all.take(i as int));
                assert(all.take(i + 1).last() == item_view(items[i as int]));
            }
            match &items[i] {
                Item::Struct(s) => {
                    byvalue_checker.ingest_struct(s);
                },
                _ => {},
            }
            i += 1;
        }
        proof {
            assert(all.take(all.len() as int) =~= all);
        }
        let ghost g = byvalue_checker@;
        let ghost req = self@.pod_requests;
        match byvalue_checker.classify(&self.pod_requests) {
            Ok(v) => {
                proof {
                    assert(v@ =~= value_safe_names(g, req));
                    assert(!value_safety_violated(g, req)) by {
                        if value_safety_violated(g, req) {
                            let n = choose|n: Text|
                                reached(g, req, n) && #[trigger] offending(g, n);
                            assert(v@.contains(n));
                        }
                    }
                }
                Ok(v)
            },
            Err(n) => Err(ConvertError::UnsafePODType(n)),
        }
    }

    /// Converts the module `bindings` of low-level bindings.
    ///
    /// A module without a body is refused. The aggregates of the module
    /// are classified first, and the conversion is refused where a type that
    /// was requested to be passed by value cannot be; the error then names
    /// the first offending type that a walk over the requests meets. It is
    /// refused, too, where a foreign block holds an item that is no
    /// function. Else the result holds the items that stay outside the
    /// bridge module, in their order, and after them the bridge module; the
    /// record of each aggregate and enum; and the factories that the
    /// constructors ask for.
    pub fn convert(&self, bindings: ItemMod, extra_inclusion: Option<&str>) -> (r: Result<
        BridgeConversion,
        ConvertError,
    >)
        ensures
            match bindings@.content {
                None => r matches Err(e) && e is NoContent,
                Some(items) => {
                    let g = aggregates_of(items);
                    let requests = self@.pod_requests;
                    match refusal(g, requests) {
                        Some(n) => r matches Err(ConvertError::UnsafePODType(m)) && m@ == n
                            && reached(g, requests, n) && offending(g, n),
                        None => !value_safety_violated(g, requests) && if has_unknown_foreign_item(
                            items,
                        ) {
                            r matches Err(e) && e is UnknownForeignItem
                        } else {
                            r matches Ok(c) && c@ == conversion(
                                self@,
                                opt_str(extra_inclusion),
                                value_safe_names(g, requests),
                                items,
                            )
                        },
                    }
                },
            },
    {
        match bindings.content {
            None => Err(ConvertError::NoContent),
            Some(items) => {
                let ghost all = items_view(items@);
                let ghost extra = opt_str(extra_inclusion);
                proof {
                    assert(mod_view(bindings).content->Some_0 =~= all);
                }
                let verdicts = match self.find_nested_pod_types(&items) {
                    Ok(v) => v,
                    Err(e) => {
                        return Err(e);
                    },
                };
                let ghost pods = verdicts@;
                let mut pass = Pass::start(Ghost(self@), Ghost(extra), Ghost(pods));
                proof {
                    assert(all.take(0) =~= Seq::<SpecItem>::empty());
                }
                for item in it: items
                    invariant
                        all == items_view(it.seq()),
                        bindings@.content == Some(all),
                        refusal(aggregates_of(all), self@.pod_requests) is None,
                        !value_safety_violated(aggregates_of(all), self@.pod_requests),
                        extra == opt_str(extra_inclusion),
                        pods == verdicts@,
                        pass.tracks(self@, extra, pods, all.take(it.index() as int)),
                {
                    let ghost k = it.index() as int;
                    let ghost done = all.take(k);
                    proof {
                        assert(all[k] == item@);
                        assert(all.take(k + 1) =~= done.push(item@));
                    }
                    match item {
                        Item::ForeignMod(fm) => {
                            match self.pass_foreign_mod(
                                pass,
                                fm,
                                extra_inclusion,
                                Ghost(pods),
                                Ghost(done),
                            ) {
                                Ok(p) => {
                                    pass = p;
                                },
                                Err(e) => {
                                    proof {
                                        assert(all[k] matches SpecItem::ForeignMod(m)
                                            && !all_functions(m.items));
                                    }
                                    return Err(e);
                                },
                            }
                        },
                        Item::Struct(s) => {
                            pass = self.pass_struct(pass, &verdicts, s, Ghost(extra), Ghost(done));
                        },
                        Item::Enum(e) => {
                            pass = self.pass_enum(pass, e, Ghost(extra), Ghost(pods), Ghost(done));
                        },
                        Item::Impl(i) => {
                            pass = self.pass_impl(pass, i, Ghost(extra), Ghost(pods), Ghost(done));
                        },
                        other => {
                            pass = self.pass_other(
                                pass,
                                other,
                                Ghost(extra),
                                Ghost(pods),
                                Ghost(done),
                            );
                        },
                    }
                }
                proof {
                    assert(all.take(all.len() as int) =~= all);
                }
                let Pass {
                    mut all_items,
                    mut bridge_items,
                    extern_c_mod,
                    additional_cpp_needs,
                    types_to_disable,
                    types_found: _,
                    class_names_discovered: _,
                } = pass;
                let ghost bridge_before = bridge_items@;
                match extern_c_mod {
                    Some(m) => {
                        bridge_items.push(Item::ForeignMod(m));
                    },
                    None => {},
                }
                proof {
                    assert(items_view(bridge_items@) =~= items_view(bridge_before)
                        + merged_foreign_mod(self@.include_list, extra, pods, all));
                }
                let ghost content = items_view(bridge_items@);
                let mut bridge_path: Vec<String> = Vec::new();
                bridge_path.push(String::from_str("cxx"));
                bridge_path.push(String::from_str("bridge"));
                let mut bridge_attrs: Vec<Attribute> = Vec::new();
                bridge_attrs.push(Attribute { path: bridge_path, tokens: String::new() });
                let module = ItemMod {
                    attrs: bridge_attrs,
                    vis: String::from_str("pub"),
                    ident: String::from_str("cxxbridge"),
                    content: Some(bridge_items),
                };
                proof {
                    let want = bridge_module(content)->Mod_0;
                    assert(texts(bridge_path@) =~= seq!["cxx"@, "bridge"@]);
                    assert(attrs_view(bridge_attrs@) =~= want.attrs);
                    assert(mod_view(module).content->Some_0 =~= content);
                    assert(mod_view(module) == want);
                }
                let ghost outer_before = all_items@;
                all_items.push(Item::Mod(module));
                proof {
                    assert(items_view(all_items@) =~= items_view(outer_before).push(
                        bridge_module(content),
                    ));
                }
                Ok(BridgeConversion { items: all_items, types_to_disable, additional_cpp_needs })
            },
        }
    }
}

} // verus!
