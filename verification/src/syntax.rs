//! The declarations that the rewriter reads and writes, as plain values.
//!
//! Each type holds what the rules of the rewriter look at, and carries the
//! rest of the declaration as text. The view of a value is its model in
//! [`crate::syntax_model`].
use vstd::prelude::*;
use crate::syntax_model::{
    SpecAttribute, SpecBlock, SpecField, SpecFnArg, SpecForeignItem, SpecForeignItemFn,
    SpecGenericArgument, SpecImplItem, SpecImplItemMethod, SpecItem, SpecItemEnum,
    SpecItemForeignMod, SpecItemImpl, SpecItemMod, SpecItemStruct, SpecPatIdent, SpecPatType,
    SpecPathArguments, SpecPathSegment, SpecPattern, SpecSignature, SpecType, SpecTypePath,
    SpecTypePtr, SpecTypeReference,
};
use crate::text::{clone_opt_text, opt_text, texts};

verus! {

/// An attribute on a declaration, such as `#[repr(C)]`: the identifiers of its
/// path and the tokens that follow the path.
#[derive(Debug, PartialEq, Eq)]
pub struct Attribute {
    pub path: Vec<String>,
    pub tokens: String,
}

/// A type. The shapes that the rewriter does not look into are carried as
/// text.
#[derive(Debug, PartialEq, Eq)]
pub enum Type {
    Path(TypePath),
    Reference(TypeReference),
    Ptr(TypePtr),
    Other(String),
}

/// A path-shaped type such as `a::b<T>`.
#[derive(Debug, PartialEq, Eq)]
pub struct TypePath {
    pub qself: Option<String>,
    pub leading_colon: bool,
    pub segments: Vec<PathSegment>,
}

#[derive(Debug, PartialEq, Eq)]
pub struct PathSegment {
    pub ident: String,
    pub arguments: PathArguments,
}

#[derive(Debug, PartialEq, Eq)]
pub enum PathArguments {
    Empty,
    AngleBracketed(Vec<GenericArgument>),
    Parenthesized(String),
}

#[derive(Debug, PartialEq, Eq)]
pub enum GenericArgument {
    Type(Type),
    Other(String),
}

/// A reference type `&'a mut T`.
#[derive(Debug, PartialEq, Eq)]
pub struct TypeReference {
    pub lifetime: Option<String>,
    pub mutable: bool,
    pub elem: Box<Type>,
}

/// A raw pointer type `*mut T` or `*const T`.
#[derive(Debug, PartialEq, Eq)]
pub struct TypePtr {
    pub mutable: bool,
    pub elem: Box<Type>,
}

/// A pattern that binds one identifier.
#[derive(Debug, PartialEq, Eq)]
pub struct PatIdent {
    pub attrs: Vec<Attribute>,
    pub by_ref: bool,
    pub mutable: bool,
    pub ident: String,
    pub subpat: Option<String>,
}

#[derive(Debug, PartialEq, Eq)]
pub enum Pattern {
    Ident(PatIdent),
    Other(String),
}

/// A parameter written as a pattern and a type.
#[derive(Debug, PartialEq, Eq)]
pub struct PatType {
    pub attrs: Vec<Attribute>,
    pub pat: Pattern,
    pub ty: Type,
}

#[derive(Debug, PartialEq, Eq)]
pub enum FnArg {
    Receiver(String),
    Typed(PatType),
}

/// The signature of a function. `output` is `None` where the function
/// returns nothing.
#[derive(Debug, PartialEq, Eq)]
pub struct Signature {
    pub qualifiers: String,
    pub unsafety: bool,
    pub ident: String,
    pub generics: String,
    pub inputs: Vec<FnArg>,
    pub variadic: bool,
    pub output: Option<Type>,
}

/// A function declared in a foreign block.
#[derive(Debug, PartialEq, Eq)]
pub struct ForeignItemFn {
    pub attrs: Vec<Attribute>,
    pub vis: String,
    pub sig: Signature,
}

/// An item of a foreign block. `Header(h)` is the directive that brings in
/// the native header `h`; `Type(t)` declares the type `t` by name alone.
#[derive(Debug, PartialEq, Eq)]
pub enum ForeignItem {
    Fn(ForeignItemFn),
    Header(String),
    Type(String),
    Other(String),
}

/// A foreign block.
#[derive(Debug, PartialEq, Eq)]
pub struct ItemForeignMod {
    pub attrs: Vec<Attribute>,
    pub unsafety: bool,
    pub abi: String,
    pub items: Vec<ForeignItem>,
}

/// A field of an aggregate; `ident` is `None` in a tuple struct.
#[derive(Debug, PartialEq, Eq)]
pub struct Field {
    pub attrs: Vec<Attribute>,
    pub vis: String,
    pub ident: Option<String>,
    pub ty: Type,
}

/// The definition of an aggregate.
#[derive(Debug, PartialEq, Eq)]
pub struct ItemStruct {
    pub attrs: Vec<Attribute>,
    pub vis: String,
    pub ident: String,
    pub generics: String,
    pub fields: Vec<Field>,
}

/// The definition of an enum; each variant is carried as text.
#[derive(Debug, PartialEq, Eq)]
pub struct ItemEnum {
    pub attrs: Vec<Attribute>,
    pub vis: String,
    pub ident: String,
    pub generics: String,
    pub variants: Vec<String>,
}

/// The body of a method: text, or one call of a free function without
/// arguments.
#[derive(Debug, PartialEq, Eq)]
pub enum Block {
    Verbatim(String),
    Call(String),
}

#[derive(Debug, PartialEq, Eq)]
pub struct ImplItemMethod {
    pub attrs: Vec<Attribute>,
    pub vis: String,
    pub defaultness: bool,
    pub sig: Signature,
    pub block: Block,
}

#[derive(Debug, PartialEq, Eq)]
pub enum ImplItem {
    Method(ImplItemMethod),
    Other(String),
}

/// An implementation block.
#[derive(Debug, PartialEq, Eq)]
pub struct ItemImpl {
    pub attrs: Vec<Attribute>,
    pub defaultness: bool,
    pub unsafety: bool,
    pub generics: String,
    pub trait_: Option<String>,
    pub self_ty: Type,
    pub items: Vec<ImplItem>,
}

/// A module; `content` is `None` where the module has no body.
#[derive(Debug, PartialEq, Eq)]
pub struct ItemMod {
    pub attrs: Vec<Attribute>,
    pub vis: String,
    pub ident: String,
    pub content: Option<Vec<Item>>,
}

/// A declaration of a module.
#[derive(Debug, PartialEq, Eq)]
pub enum Item {
    ForeignMod(ItemForeignMod),
    Struct(ItemStruct),
    Enum(ItemEnum),
    Impl(ItemImpl),
    Mod(ItemMod),
    Other(String),
}

impl View for Attribute {
    type V = SpecAttribute;

    open spec fn view(&self) -> SpecAttribute {
        SpecAttribute { path: texts(self.path@), tokens: self.tokens@ }
    }
}

/// The models of a sequence of attributes.
pub open spec fn attrs_view(v: Seq<Attribute>) -> Seq<SpecAttribute> {
    v.map_values(|a: Attribute| a@)
}

/// The model of a type.
pub open spec fn type_view(t: Type) -> SpecType
    decreases t,
{
    match t {
        Type::Path(p) => SpecType::Path(type_path_view(p)),
        Type::Reference(r) => SpecType::Reference(
            SpecTypeReference {
                lifetime: opt_text(r.lifetime),
                mutable: r.mutable,
                elem: Box::new(type_view(*r.elem)),
            },
        ),
        Type::Ptr(p) => SpecType::Ptr(
            SpecTypePtr { mutable: p.mutable, elem: Box::new(type_view(*p.elem)) },
        ),
        Type::Other(s) => SpecType::Other(s@),
    }
}

/// The model of a path-shaped type.
pub open spec fn type_path_view(p: TypePath) -> SpecTypePath
    decreases p,
{
    SpecTypePath {
        qself: opt_text(p.qself),
        leading_colon: p.leading_colon,
        segments: Seq::new(
            p.segments.len() as nat,
            |i: int|
                if 0 <= i < p.segments.len() {
                    segment_view(p.segments[i])
                } else {
                    arbitrary()
                },
        ),
    }
}

/// The model of one segment of a path.
pub open spec fn segment_view(s: PathSegment) -> SpecPathSegment
    decreases s,
{
    SpecPathSegment { ident: s.ident@, arguments: arguments_view(s.arguments) }
}

/// The model of the arguments of a path segment.
pub open spec fn arguments_view(a: PathArguments) -> SpecPathArguments
    decreases a,
{
    match a {
        PathArguments::Empty => SpecPathArguments::Empty,
        PathArguments::AngleBracketed(args) => SpecPathArguments::AngleBracketed(
            Seq::new(
                args.len() as nat,
                |i: int|
                    if 0 <= i < args.len() {
                        generic_argument_view(args[i])
                    } else {
                        arbitrary()
                    },
            ),
        ),
        PathArguments::Parenthesized(s) => SpecPathArguments::Parenthesized(s@),
    }
}

/// The model of one generic argument.
pub open spec fn generic_argument_view(g: GenericArgument) -> SpecGenericArgument
    decreases g,
{
    match g {
        GenericArgument::Type(t) => SpecGenericArgument::Type(type_view(t)),
        GenericArgument::Other(s) => SpecGenericArgument::Other(s@),
    }
}

impl View for Type {
    type V = SpecType;

    open spec fn view(&self) -> SpecType {
        type_view(*self)
    }
}

impl View for TypePath {
    type V = SpecTypePath;

    open spec fn view(&self) -> SpecTypePath {
        type_path_view(*self)
    }
}

impl View for PathSegment {
    type V = SpecPathSegment;

    open spec fn view(&self) -> SpecPathSegment {
        segment_view(*self)
    }
}

impl View for PathArguments {
    type V = SpecPathArguments;

    open spec fn view(&self) -> SpecPathArguments {
        arguments_view(*self)
    }
}

impl View for GenericArgument {
    type V = SpecGenericArgument;

    open spec fn view(&self) -> SpecGenericArgument {
        generic_argument_view(*self)
    }
}

impl View for TypeReference {
    type V = SpecTypeReference;

    open spec fn view(&self) -> SpecTypeReference {
        SpecTypeReference {
            lifetime: opt_text(self.lifetime),
            mutable: self.mutable,
            elem: Box::new(type_view(*self.elem)),
        }
    }
}

impl View for TypePtr {
    type V = SpecTypePtr;

    open spec fn view(&self) -> SpecTypePtr {
        SpecTypePtr { mutable: self.mutable, elem: Box::new(type_view(*self.elem)) }
    }
}

/// The model of an optional type.
pub open spec fn opt_type_view(o: Option<Type>) -> Option<SpecType> {
    match o {
        Some(t) => Some(t@),
        None => None,
    }
}

impl View for PatIdent {
    type V = SpecPatIdent;

    open spec fn view(&self) -> SpecPatIdent {
        SpecPatIdent {
            attrs: attrs_view(self.attrs@),
            by_ref: self.by_ref,
            mutable: self.mutable,
            ident: self.ident@,
            subpat: opt_text(self.subpat),
        }
    }
}

impl View for Pattern {
    type V = SpecPattern;

    open spec fn view(&self) -> SpecPattern {
        match self {
            Pattern::Ident(p) => SpecPattern::Ident(p@),
            Pattern::Other(s) => SpecPattern::Other(s@),
        }
    }
}

impl View for PatType {
    type V = SpecPatType;

    open spec fn view(&self) -> SpecPatType {
        SpecPatType { attrs: attrs_view(self.attrs@), pat: self.pat@, ty: self.ty@ }
    }
}

impl View for FnArg {
    type V = SpecFnArg;

    open spec fn view(&self) -> SpecFnArg {
        match self {
            FnArg::Receiver(s) => SpecFnArg::Receiver(s@),
            FnArg::Typed(p) => SpecFnArg::Typed(p@),
        }
    }
}

/// The models of a sequence of parameters.
pub open spec fn args_view(v: Seq<FnArg>) -> Seq<SpecFnArg> {
    v.map_values(|a: FnArg| a@)
}

impl View for Signature {
    type V = SpecSignature;

    open spec fn view(&self) -> SpecSignature {
        SpecSignature {
            qualifiers: self.qualifiers@,
            unsafety: self.unsafety,
            ident: self.ident@,
            generics: self.generics@,
            inputs: args_view(self.inputs@),
            variadic: self.variadic,
            output: opt_type_view(self.output),
        }
    }
}

impl View for ForeignItemFn {
    type V = SpecForeignItemFn;

    open spec fn view(&self) -> SpecForeignItemFn {
        SpecForeignItemFn { attrs: attrs_view(self.attrs@), vis: self.vis@, sig: self.sig@ }
    }
}

impl View for ForeignItem {
    type V = SpecForeignItem;

    open spec fn view(&self) -> SpecForeignItem {
        match self {
            ForeignItem::Fn(f) => SpecForeignItem::Fn(f@),
            ForeignItem::Header(s) => SpecForeignItem::Header(s@),
            ForeignItem::Type(s) => SpecForeignItem::Type(s@),
            ForeignItem::Other(s) => SpecForeignItem::Other(s@),
        }
    }
}

/// The models of a sequence of foreign items.
pub open spec fn foreign_items_view(v: Seq<ForeignItem>) -> Seq<SpecForeignItem> {
    v.map_values(|i: ForeignItem| i@)
}

impl View for ItemForeignMod {
    type V = SpecItemForeignMod;

    open spec fn view(&self) -> SpecItemForeignMod {
        SpecItemForeignMod {
            attrs: attrs_view(self.attrs@),
            unsafety: self.unsafety,
            abi: self.abi@,
            items: foreign_items_view(self.items@),
        }
    }
}

impl View for Field {
    type V = SpecField;

    open spec fn view(&self) -> SpecField {
        SpecField {
            attrs: attrs_view(self.attrs@),
            vis: self.vis@,
            ident: opt_text(self.ident),
            ty: self.ty@,
        }
    }
}

/// The models of a sequence of fields.
pub open spec fn fields_view(v: Seq<Field>) -> Seq<SpecField> {
    v.map_values(|f: Field| f@)
}

impl View for ItemStruct {
    type V = SpecItemStruct;

    open spec fn view(&self) -> SpecItemStruct {
        SpecItemStruct {
            attrs: attrs_view(self.attrs@),
            vis: self.vis@,
            ident: self.ident@,
            generics: self.generics@,
            fields: fields_view(self.fields@),
        }
    }
}

impl View for ItemEnum {
    type V = SpecItemEnum;

    open spec fn view(&self) -> SpecItemEnum {
        SpecItemEnum {
            attrs: attrs_view(self.attrs@),
            vis: self.vis@,
            ident: self.ident@,
            generics: self.generics@,
            variants: texts(self.variants@),
        }
    }
}

impl View for Block {
    type V = SpecBlock;

    open spec fn view(&self) -> SpecBlock {
        match self {
            Block::Verbatim(s) => SpecBlock::Verbatim(s@),
            Block::Call(s) => SpecBlock::Call(s@),
        }
    }
}

impl View for ImplItemMethod {
    type V = SpecImplItemMethod;

    open spec fn view(&self) -> SpecImplItemMethod {
        SpecImplItemMethod {
            attrs: attrs_view(self.attrs@),
            vis: self.vis@,
            defaultness: self.defaultness,
            sig: self.sig@,
            block: self.block@,
        }
    }
}

impl View for ImplItem {
    type V = SpecImplItem;

    open spec fn view(&self) -> SpecImplItem {
        match self {
            ImplItem::Method(m) => SpecImplItem::Method(m@),
            ImplItem::Other(s) => SpecImplItem::Other(s@),
        }
    }
}

/// The models of a sequence of items of an implementation block.
pub open spec fn impl_items_view(v: Seq<ImplItem>) -> Seq<SpecImplItem> {
    v.map_values(|i: ImplItem| i@)
}

impl View for ItemImpl {
    type V = SpecItemImpl;

    open spec fn view(&self) -> SpecItemImpl {
        SpecItemImpl {
            attrs: attrs_view(self.attrs@),
            defaultness: self.defaultness,
            unsafety: self.unsafety,
            generics: self.generics@,
            trait_: opt_text(self.trait_),
            self_ty: self.self_ty@,
            items: impl_items_view(self.items@),
        }
    }
}

/// The model of a declaration.
pub open spec fn item_view(i: Item) -> SpecItem
    decreases i,
{
    match i {
        Item::ForeignMod(f) => SpecItem::ForeignMod(f@),
        Item::Struct(s) => SpecItem::Struct(s@),
        Item::Enum(e) => SpecItem::Enum(e@),
        Item::Impl(b) => SpecItem::Impl(b@),
        Item::Mod(m) => SpecItem::Mod(mod_view(m)),
        Item::Other(s) => SpecItem::Other(s@),
    }
}

/// The model of a module.
pub open spec fn mod_view(m: ItemMod) -> SpecItemMod
    decreases m,
{
    SpecItemMod {
        attrs: attrs_view(m.attrs@),
        vis: m.vis@,
        ident: m.ident@,
        content: match m.content {
            Some(items) => Some(
                Seq::new(
                    items.len() as nat,
                    |i: int|
                        if 0 <= i < items.len() {
                            item_view(items[i])
                        } else {
                            arbitrary()
                        },
                ),
            ),
            None => None,
        },
    }
}

impl View for Item {
    type V = SpecItem;

    open spec fn view(&self) -> SpecItem {
        item_view(*self)
    }
}

impl View for ItemMod {
    type V = SpecItemMod;

    open spec fn view(&self) -> SpecItemMod {
        mod_view(*self)
    }
}

/// The models of a sequence of declarations.
pub open spec fn items_view(v: Seq<Item>) -> Seq<SpecItem> {
    v.map_values(|i: Item| i@)
}

/// A copy of a type.
pub fn clone_type(t: &Type) -> (r: Type)
    ensures
        r@ == t@,
    decreases t,
{
    match t {
        Type::Path(p) => Type::Path(clone_type_path(p)),
        Type::Reference(x) => Type::Reference(
            TypeReference {
                lifetime: clone_opt_text(&x.lifetime),
                mutable: x.mutable,
                elem: Box::new(clone_type(&x.elem)),
            },
        ),
        Type::Ptr(x) => Type::Ptr(
            TypePtr { mutable: x.mutable, elem: Box::new(clone_type(&x.elem)) },
        ),
        Type::Other(s) => Type::Other(s.clone()),
    }
}

/// A copy of a path-shaped type.
pub fn clone_type_path(p: &TypePath) -> (r: TypePath)
    ensures
        r@ == p@,
    decreases p,
{
    let mut segments: Vec<PathSegment> = Vec::new();
    let mut i: usize = 0;
    while i < p.segments.len()
        invariant
            i <= p.segments.len(),
            segments.len() == i,
            forall|k: int|
                0 <= k < i ==> segment_view(#[trigger] segments[k]) == segment_view(p.segments[k]),
        decreases p.segments.len() - i,
    {
        let s = &p.segments[i];
        let arguments = match &s.arguments {
            PathArguments::AngleBracketed(args) => PathArguments::AngleBracketed(
                clone_generic_arguments(args),
            ),
            PathArguments::Parenthesized(t) => PathArguments::Parenthesized(t.clone()),
            PathArguments::Empty => PathArguments::Empty,
        };
        segments.push(PathSegment { ident: s.ident.clone(), arguments });
        i += 1;
    }
    let r = TypePath {
        qself: clone_opt_text(&p.qself),
        leading_colon: p.leading_colon,
        segments,
    };
    assert(r@.segments =~= p@.segments);
    r
}

/// A copy of a list of generic arguments.
pub fn clone_generic_arguments(args: &Vec<GenericArgument>) -> (r: Vec<GenericArgument>)
    ensures
        arguments_view(PathArguments::AngleBracketed(r)) == arguments_view(
            PathArguments::AngleBracketed(*args),
        ),
    decreases args,
{
    let mut out: Vec<GenericArgument> = Vec::new();
    let mut i: usize = 0;
    while i < args.len()
        invariant
            i <= args.len(),
            out.len() == i,
            forall|k: int|
                0 <= k < i ==> generic_argument_view(#[trigger] out[k]) == generic_argument_view(
                    args[k],
                ),
        decreases args.len() - i,
    {
        let a = match &args[i] {
            GenericArgument::Type(t) => GenericArgument::Type(clone_type(t)),
            GenericArgument::Other(s) => GenericArgument::Other(s.clone()),
        };
        out.push(a);
        i += 1;
    }
    assert(arguments_view(PathArguments::AngleBracketed(out))->AngleBracketed_0 =~= arguments_view(
        PathArguments::AngleBracketed(*args),
    )->AngleBracketed_0);
    out
}

} // verus!
