//! The rules that turn the types of a low-level signature into the types of
//! the bridge.
//!
//! A path-shaped type gets the bridge's name for its last segment, and the
//! rule is applied to the type arguments of each of its segments. A raw
//! pointer becomes a reference of the same mutability. The rule is applied to
//! what a reference points at. Every other shape stays as it is.
use vstd::prelude::*;
use crate::known_types::{bridge_name, lemma_bridge_name_stable};
use crate::syntax_model::{
    SpecGenericArgument, SpecPathArguments, SpecPathSegment, SpecType, SpecTypePath,
    SpecTypePtr, SpecTypeReference,
};

verus! {

/// The bridge's form of a type.
pub open spec fn convert_type(t: SpecType) -> SpecType
    decreases t,
{
    match t {
        SpecType::Path(p) => SpecType::Path(convert_type_path(p)),
        SpecType::Reference(r) => SpecType::Reference(
            SpecTypeReference {
                lifetime: r.lifetime,
                mutable: r.mutable,
                elem: Box::new(convert_type(*r.elem)),
            },
        ),
        SpecType::Ptr(p) => SpecType::Reference(convert_ptr_to_reference(p)),
        SpecType::Other(s) => t,
    }
}

/// The reference that stands for a raw pointer: same mutability, no
/// lifetime, and the bridge's form of what it points at.
pub open spec fn convert_ptr_to_reference(p: SpecTypePtr) -> SpecTypeReference
    decreases p,
{
    SpecTypeReference { lifetime: None, mutable: p.mutable, elem: Box::new(convert_type(*p.elem)) }
}

/// The bridge's form of a path-shaped type.
pub open spec fn convert_type_path(p: SpecTypePath) -> SpecTypePath
    decreases p,
{
    SpecTypePath {
        qself: p.qself,
        leading_colon: p.leading_colon,
        segments: convert_segments(p.segments),
    }
}

/// The bridge's form of the segments of a path: the last one is the leaf.
pub open spec fn convert_segments(s: Seq<SpecPathSegment>) -> Seq<SpecPathSegment>
    decreases s,
{
    Seq::new(
        s.len(),
        |i: int|
            if 0 <= i < s.len() {
                convert_segment(s[i], i == s.len() - 1)
            } else {
                arbitrary()
            },
    )
}

/// The bridge's form of one segment; `leaf` says that it is the last of its
/// path, the one that names the type.
pub open spec fn convert_segment(s: SpecPathSegment, leaf: bool) -> SpecPathSegment
    decreases s,
{
    SpecPathSegment {
        ident: if leaf {
            bridge_name(s.ident)
        } else {
            s.ident
        },
        arguments: convert_arguments(s.arguments),
    }
}

/// The bridge's form of the arguments of a segment.
pub open spec fn convert_arguments(a: SpecPathArguments) -> SpecPathArguments
    decreases a,
{
    match a {
        SpecPathArguments::AngleBracketed(args) => SpecPathArguments::AngleBracketed(
            convert_punctuated(args),
        ),
        _ => a,
    }
}

/// The bridge's form of a list of generic arguments: each type among them is
/// converted, the rest stay.
pub open spec fn convert_punctuated(args: Seq<SpecGenericArgument>) -> Seq<SpecGenericArgument>
    decreases args,
{
    Seq::new(
        args.len(),
        |i: int|
            if 0 <= i < args.len() {
                convert_generic_argument(args[i])
            } else {
                arbitrary()
            },
    )
}

/// The bridge's form of one generic argument.
pub open spec fn convert_generic_argument(g: SpecGenericArgument) -> SpecGenericArgument
    decreases g,
{
    match g {
        SpecGenericArgument::Type(t) => SpecGenericArgument::Type(convert_type(t)),
        SpecGenericArgument::Other(_) => g,
    }
}

/// The bridge's form of a return type.
pub open spec fn convert_return_type(rt: Option<SpecType>) -> Option<SpecType> {
    match rt {
        Some(t) => Some(convert_type(t)),
        None => None,
    }
}

/// Converting a converted type changes nothing.
pub proof fn lemma_convert_type_idempotent(t: SpecType)
    ensures
        convert_type(convert_type(t)) == convert_type(t),
    decreases t,
{
    match t {
        SpecType::Path(p) => {
            lemma_convert_type_path_idempotent(p);
            assert(convert_type(t) == SpecType::Path(convert_type_path(p)));
            assert(convert_type(SpecType::Path(convert_type_path(p))) == SpecType::Path(
                convert_type_path(convert_type_path(p)),
            ));
        },
        SpecType::Reference(r) => {
            lemma_convert_type_idempotent(*r.elem);
            assert(convert_type(convert_type(t)) == SpecType::Reference(
                SpecTypeReference {
                    lifetime: r.lifetime,
                    mutable: r.mutable,
                    elem: Box::new(convert_type(convert_type(*r.elem))),
                },
            ));
        },
        SpecType::Ptr(p) => {
            lemma_convert_type_idempotent(*p.elem);
            assert(convert_ptr_to_reference(p) == SpecTypeReference {
                lifetime: None,
                mutable: p.mutable,
                elem: Box::new(convert_type(*p.elem)),
            });
            assert(convert_type(convert_type(t)) == SpecType::Reference(
                SpecTypeReference {
                    lifetime: None,
                    mutable: p.mutable,
                    elem: Box::new(convert_type(convert_type(*p.elem))),
                },
            ));
        },
        SpecType::Other(_) => {},
    }
}

/// Converting a converted path changes nothing.
pub proof fn lemma_convert_type_path_idempotent(p: SpecTypePath)
    ensures
        convert_type_path(convert_type_path(p)) == convert_type_path(p),
    decreases p,
{
    let once = convert_type_path(p);
    let twice = convert_type_path(once);
    assert forall|i: int| 0 <= i < p.segments.len() implies twice.segments[i]
        == once.segments[i] by {
        let leaf = i == p.segments.len() - 1;
        lemma_bridge_name_stable(p.segments[i].ident);
        lemma_convert_arguments_idempotent(p.segments[i].arguments);
    }
    assert(twice.segments =~= once.segments);
}

/// Converting converted arguments changes nothing.
pub proof fn lemma_convert_arguments_idempotent(a: SpecPathArguments)
    ensures
        convert_arguments(convert_arguments(a)) == convert_arguments(a),
    decreases a,
{
    match a {
        SpecPathArguments::AngleBracketed(args) => {
            assert forall|i: int| 0 <= i < args.len() implies convert_generic_argument(
                convert_generic_argument(args[i]),
            ) == convert_generic_argument(args[i]) by {
                match args[i] {
                    SpecGenericArgument::Type(t) => {
                        lemma_convert_type_idempotent(t);
                    },
                    SpecGenericArgument::Other(_) => {},
                }
            }
            assert(convert_punctuated(convert_punctuated(args)) =~= convert_punctuated(args));
        },
        _ => {},
    }
}

/// How many references (`pointers` false) or raw pointers (`pointers` true)
/// of the given mutability a type holds, itself and its type arguments
/// counted.
pub open spec fn count_in_type(t: SpecType, pointers: bool, mutable: bool) -> nat
    decreases t,
{
    match t {
        SpecType::Path(p) => count_in_segments(p.segments, pointers, mutable),
        SpecType::Reference(r) => count_in_type(*r.elem, pointers, mutable) + (if !pointers
            && r.mutable == mutable {
            1nat
        } else {
            0nat
        }),
        SpecType::Ptr(p) => count_in_type(*p.elem, pointers, mutable) + (if pointers && p.mutable
            == mutable {
            1nat
        } else {
            0nat
        }),
        SpecType::Other(_) => 0,
    }
}

/// The count of [`count_in_type`] over the type arguments of a path's
/// segments.
pub open spec fn count_in_segments(s: Seq<SpecPathSegment>, pointers: bool, mutable: bool) -> nat
    decreases s,
{
    if s.len() == 0 {
        0
    } else {
        count_in_segments(s.drop_last(), pointers, mutable) + count_in_arguments(
            s.last().arguments,
            pointers,
            mutable,
        )
    }
}

/// The count of [`count_in_type`] over the arguments of one segment.
pub open spec fn count_in_arguments(a: SpecPathArguments, pointers: bool, mutable: bool) -> nat
    decreases a,
{
    match a {
        SpecPathArguments::AngleBracketed(args) => count_in_generic_arguments(
            args,
            pointers,
            mutable,
        ),
        _ => 0,
    }
}

/// The count of [`count_in_type`] over a list of generic arguments.
pub open spec fn count_in_generic_arguments(
    args: Seq<SpecGenericArgument>,
    pointers: bool,
    mutable: bool,
) -> nat
    decreases args,
{
    if args.len() == 0 {
        0
    } else {
        count_in_generic_arguments(args.drop_last(), pointers, mutable) + (match args.last() {
            SpecGenericArgument::Type(t) => count_in_type(t, pointers, mutable),
            SpecGenericArgument::Other(_) => 0,
        })
    }
}

/// A converted type holds no raw pointer, and holds one reference for each
/// reference and each raw pointer of the same mutability that the type held
/// before.
pub proof fn lemma_pointers_become_references(t: SpecType, mutable: bool)
    ensures
        count_in_type(convert_type(t), true, mutable) == 0,
        count_in_type(convert_type(t), false, mutable) == count_in_type(t, false, mutable)
            + count_in_type(t, true, mutable),
    decreases t,
{
    match t {
        SpecType::Path(p) => {
            lemma_segments_pointers(p.segments, p.segments.len() as int, mutable);
            assert(p.segments.take(p.segments.len() as int) =~= p.segments);
            assert(convert_segments(p.segments).take(p.segments.len() as int)
                =~= convert_segments(p.segments));
            assert(convert_type(t) == SpecType::Path(convert_type_path(p)));
        },
        SpecType::Reference(r) => {
            lemma_pointers_become_references(*r.elem, mutable);
            assert(convert_type(t) == SpecType::Reference(
                SpecTypeReference {
                    lifetime: r.lifetime,
                    mutable: r.mutable,
                    elem: Box::new(convert_type(*r.elem)),
                },
            ));
        },
        SpecType::Ptr(p) => {
            lemma_pointers_become_references(*p.elem, mutable);
            assert(convert_ptr_to_reference(p) == SpecTypeReference {
                lifetime: None,
                mutable: p.mutable,
                elem: Box::new(convert_type(*p.elem)),
            });
            assert(convert_type(t) == SpecType::Reference(
                SpecTypeReference {
                    lifetime: None,
                    mutable: p.mutable,
                    elem: Box::new(convert_type(*p.elem)),
                },
            ));
        },
        SpecType::Other(_) => {},
    }
}

proof fn lemma_segments_pointers(s: Seq<SpecPathSegment>, n: int, mutable: bool)
    requires
        0 <= n <= s.len(),
    ensures
        count_in_segments(convert_segments(s).take(n), true, mutable) == 0,
        count_in_segments(convert_segments(s).take(n), false, mutable) == count_in_segments(
            s.take(n),
            false,
            mutable,
        ) + count_in_segments(s.take(n), true, mutable),
    decreases s, n,
{
    let out = convert_segments(s);
    if n > 0 {
        lemma_segments_pointers(s, n - 1, mutable);
        assert(out.take(n).drop_last() =~= out.take(n - 1));
        assert(s.take(n).drop_last() =~= s.take(n - 1));
        lemma_arguments_pointers(s[n - 1].arguments, mutable);
    }
}

proof fn lemma_arguments_pointers(a: SpecPathArguments, mutable: bool)
    ensures
        count_in_arguments(convert_arguments(a), true, mutable) == 0,
        count_in_arguments(convert_arguments(a), false, mutable) == count_in_arguments(
            a,
            false,
            mutable,
        ) + count_in_arguments(a, true, mutable),
    decreases a,
{
    match a {
        SpecPathArguments::AngleBracketed(args) => {
            lemma_generic_arguments_pointers(args, args.len() as int, mutable);
            assert(args.take(args.len() as int) =~= args);
            assert(convert_punctuated(args).take(args.len() as int) =~= convert_punctuated(args));
        },
        _ => {},
    }
}

proof fn lemma_generic_arguments_pointers(args: Seq<SpecGenericArgument>, n: int, mutable: bool)
    requires
        0 <= n <= args.len(),
    ensures
        count_in_generic_arguments(convert_punctuated(args).take(n), true, mutable) == 0,
        count_in_generic_arguments(convert_punctuated(args).take(n), false, mutable)
            == count_in_generic_arguments(args.take(n), false, mutable)
            + count_in_generic_arguments(args.take(n), true, mutable),
    decreases args, n,
{
    if n > 0 {
        lemma_generic_arguments_pointers(args, n - 1, mutable);
        assert(convert_punctuated(args).take(n).drop_last() =~= convert_punctuated(args).take(
            n - 1,
        ));
        assert(args.take(n).drop_last() =~= args.take(n - 1));
        match args[n - 1] {
            SpecGenericArgument::Type(t) => {
                lemma_pointers_become_references(t, mutable);
            },
            SpecGenericArgument::Other(_) => {},
        }
    }
}

} // verus!
