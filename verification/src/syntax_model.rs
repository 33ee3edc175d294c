//! The mathematical model of the declarations that the rewriter reads and
//! writes: each executable type of [`crate::syntax`] has a ghost counterpart
//! here, with sequences in place of vectors and of strings.
use vstd::prelude::*;

verus! {

/// Text: a sequence of characters.
pub type Text = Seq<char>;

/// An attribute: the identifiers of its path and the tokens after the path.
pub struct SpecAttribute {
    pub path: Seq<Text>,
    pub tokens: Text,
}

impl SpecAttribute {
    /// Whether the attribute's path is the single identifier `name`.
    pub open spec fn is_named(self, name: Text) -> bool {
        self.path.len() == 1 && self.path[0] == name
    }
}

/// A type, as far as the rewriter looks into it.
pub enum SpecType {
    Path(SpecTypePath),
    Reference(SpecTypeReference),
    Ptr(SpecTypePtr),
    Other(Text),
}

pub struct SpecTypePath {
    pub qself: Option<Text>,
    pub leading_colon: bool,
    pub segments: Seq<SpecPathSegment>,
}

pub struct SpecPathSegment {
    pub ident: Text,
    pub arguments: SpecPathArguments,
}

pub enum SpecPathArguments {
    Empty,
    AngleBracketed(Seq<SpecGenericArgument>),
    Parenthesized(Text),
}

pub enum SpecGenericArgument {
    Type(SpecType),
    Other(Text),
}

pub struct SpecTypeReference {
    pub lifetime: Option<Text>,
    pub mutable: bool,
    pub elem: Box<SpecType>,
}

pub struct SpecTypePtr {
    pub mutable: bool,
    pub elem: Box<SpecType>,
}

pub struct SpecPatIdent {
    pub attrs: Seq<SpecAttribute>,
    pub by_ref: bool,
    pub mutable: bool,
    pub ident: Text,
    pub subpat: Option<Text>,
}

pub enum SpecPattern {
    Ident(SpecPatIdent),
    Other(Text),
}

pub struct SpecPatType {
    pub attrs: Seq<SpecAttribute>,
    pub pat: SpecPattern,
    pub ty: SpecType,
}

pub enum SpecFnArg {
    Receiver(Text),
    Typed(SpecPatType),
}

pub struct SpecSignature {
    pub qualifiers: Text,
    pub unsafety: bool,
    pub ident: Text,
    pub generics: Text,
    pub inputs: Seq<SpecFnArg>,
    pub variadic: bool,
    pub output: Option<SpecType>,
}

pub struct SpecForeignItemFn {
    pub attrs: Seq<SpecAttribute>,
    pub vis: Text,
    pub sig: SpecSignature,
}

pub enum SpecForeignItem {
    Fn(SpecForeignItemFn),
    Header(Text),
    Type(Text),
    Other(Text),
}

pub struct SpecItemForeignMod {
    pub attrs: Seq<SpecAttribute>,
    pub unsafety: bool,
    pub abi: Text,
    pub items: Seq<SpecForeignItem>,
}

pub struct SpecField {
    pub attrs: Seq<SpecAttribute>,
    pub vis: Text,
    pub ident: Option<Text>,
    pub ty: SpecType,
}

pub struct SpecItemStruct {
    pub attrs: Seq<SpecAttribute>,
    pub vis: Text,
    pub ident: Text,
    pub generics: Text,
    pub fields: Seq<SpecField>,
}

pub struct SpecItemEnum {
    pub attrs: Seq<SpecAttribute>,
    pub vis: Text,
    pub ident: Text,
    pub generics: Text,
    pub variants: Seq<Text>,
}

pub enum SpecBlock {
    Verbatim(Text),
    Call(Text),
}

pub struct SpecImplItemMethod {
    pub attrs: Seq<SpecAttribute>,
    pub vis: Text,
    pub defaultness: bool,
    pub sig: SpecSignature,
    pub block: SpecBlock,
}

pub enum SpecImplItem {
    Method(SpecImplItemMethod),
    Other(Text),
}

pub struct SpecItemImpl {
    pub attrs: Seq<SpecAttribute>,
    pub defaultness: bool,
    pub unsafety: bool,
    pub generics: Text,
    pub trait_: Option<Text>,
    pub self_ty: SpecType,
    pub items: Seq<SpecImplItem>,
}

pub struct SpecItemMod {
    pub attrs: Seq<SpecAttribute>,
    pub vis: Text,
    pub ident: Text,
    pub content: Option<Seq<SpecItem>>,
}

pub enum SpecItem {
    ForeignMod(SpecItemForeignMod),
    Struct(SpecItemStruct),
    Enum(SpecItemEnum),
    Impl(SpecItemImpl),
    Mod(SpecItemMod),
    Other(Text),
}

} // verus!
