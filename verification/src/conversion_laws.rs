//! What holds of every conversion, proved from the definitions of
//! [`crate::conversion_spec`].
use vstd::prelude::*;
use crate::byvalue_checker::typename_of;
use crate::conversion_spec::{
    SpecAdditionalNeed, SpecEncounteredType, additional_needs, aggregates_of, class_names,
    constructor_args, convert_fn_args, convert_foreign_fn, convert_foreign_mod_items,
    convert_signature, encountered_types, foreign_functions, is_constructor,
    is_constructor_name, make_unique_needs, needs_of_impl, struct_names,
};
use crate::syntax_model::{
    SpecFnArg, SpecForeignItem, SpecImplItem, SpecItem, SpecSignature, SpecType,
    SpecTypeReference, Text,
};
use crate::type_conversion::{
    convert_ptr_to_reference, convert_type, count_in_type, lemma_pointers_become_references,
};

verus! {

/// How many references (`pointers` false) or raw pointers (`pointers` true)
/// of the given mutability the types of the parameters hold.
pub open spec fn count_in_args(args: Seq<SpecFnArg>, pointers: bool, mutable: bool) -> nat
    decreases args.len(),
{
    if args.len() == 0 {
        0
    } else {
        count_in_args(args.drop_last(), pointers, mutable) + (match args.last() {
            SpecFnArg::Typed(pt) => count_in_type(pt.ty, pointers, mutable),
            SpecFnArg::Receiver(_) => 0,
        })
    }
}

/// How many references or raw pointers of the given mutability a signature
/// holds, in its parameters and in its return type.
pub open spec fn count_in_signature(sig: SpecSignature, pointers: bool, mutable: bool) -> nat {
    count_in_args(sig.inputs, pointers, mutable) + (match sig.output {
        Some(t) => count_in_type(t, pointers, mutable),
        None => 0,
    })
}

proof fn lemma_args_pointers(args: Seq<SpecFnArg>, n: int, mutable: bool)
    requires
        0 <= n <= args.len(),
    ensures
        count_in_args(convert_fn_args(args).take(n), true, mutable) == 0,
        count_in_args(convert_fn_args(args).take(n), false, mutable) == count_in_args(
            args.take(n),
            false,
            mutable,
        ) + count_in_args(args.take(n), true, mutable),
    decreases n,
{
    if n > 0 {
        lemma_args_pointers(args, n - 1, mutable);
        assert(convert_fn_args(args).take(n).drop_last() =~= convert_fn_args(args).take(n - 1));
        assert(args.take(n).drop_last() =~= args.take(n - 1));
        match args[n - 1] {
            SpecFnArg::Typed(pt) => {
                lemma_pointers_become_references(pt.ty, mutable);
            },
            SpecFnArg::Receiver(_) => {},
        }
    }
}

/// A converted signature holds no raw pointer, and holds one reference for
/// each reference and each raw pointer of the same mutability that the
/// signature held before.
pub proof fn lemma_signature_pointers_become_references(
    classes: Seq<Text>,
    sig: SpecSignature,
    mutable: bool,
)
    ensures
        count_in_signature(convert_signature(classes, sig), true, mutable) == 0,
        count_in_signature(convert_signature(classes, sig), false, mutable) == count_in_signature(
            sig,
            false,
            mutable,
        ) + count_in_signature(sig, true, mutable),
{
    lemma_args_pointers(sig.inputs, sig.inputs.len() as int, mutable);
    assert(sig.inputs.take(sig.inputs.len() as int) =~= sig.inputs);
    assert(convert_fn_args(sig.inputs).take(sig.inputs.len() as int) =~= convert_fn_args(
        sig.inputs,
    ));
    match sig.output {
        Some(t) => {
            lemma_pointers_become_references(t, mutable);
        },
        None => {},
    }
}

/// A parameter whose type is a raw pointer becomes, at the same place, a
/// parameter whose type is a reference of the same mutability to the
/// converted pointee.
pub proof fn lemma_pointer_parameter_becomes_reference(
    classes: Seq<Text>,
    sig: SpecSignature,
    i: int,
)
    requires
        0 <= i < sig.inputs.len(),
        sig.inputs[i] matches SpecFnArg::Typed(pt) && pt.ty is Ptr,
    ensures
        convert_signature(classes, sig).inputs.len() == sig.inputs.len(),
        convert_signature(classes, sig).inputs[i] matches SpecFnArg::Typed(pt) && pt.ty
            == SpecType::Reference(
            SpecTypeReference {
                lifetime: None,
                mutable: sig.inputs[i]->Typed_0.ty->Ptr_0.mutable,
                elem: Box::new(convert_type(*sig.inputs[i]->Typed_0.ty->Ptr_0.elem)),
            },
        ),
{
    let p = sig.inputs[i]->Typed_0.ty->Ptr_0;
    assert(convert_ptr_to_reference(p) == SpecTypeReference {
        lifetime: None,
        mutable: p.mutable,
        elem: Box::new(convert_type(*p.elem)),
    });
    assert(convert_type(SpecType::Ptr(p)) == SpecType::Reference(convert_ptr_to_reference(p)));
}

/// Every function that comes out of a foreign block stems from a function
/// of the block that is no constructor of one of `types`: the constructors
/// leave nothing behind.
pub proof fn lemma_constructors_elided(
    types: Seq<Text>,
    classes: Seq<Text>,
    items: Seq<SpecForeignItem>,
    j: int,
)
    requires
        0 <= j < convert_foreign_mod_items(types, classes, items).len(),
    ensures
        exists|k: int|
            0 <= k < items.len() && (#[trigger] items[k] matches SpecForeignItem::Fn(f)
                && !is_constructor_name(types, f.sig.ident) && convert_foreign_mod_items(
                types,
                classes,
                items,
            )[j] == SpecForeignItem::Fn(convert_foreign_fn(types, classes, f)->Some_0)),
    decreases items.len(),
{
    let out = convert_foreign_mod_items(types, classes, items);
    let rest = convert_foreign_mod_items(types, classes, items.drop_last());
    if j < rest.len() {
        lemma_constructors_elided(types, classes, items.drop_last(), j);
        let k = choose|k: int|
            0 <= k < items.drop_last().len() && (
            #[trigger] items.drop_last()[k] matches SpecForeignItem::Fn(f) && !is_constructor_name(
                types,
                f.sig.ident,
            ) && rest[j] == SpecForeignItem::Fn(convert_foreign_fn(types, classes, f)->Some_0));
        assert(items[k] == items.drop_last()[k]);
        assert(out[j] == rest[j]);
    } else {
        assert(items[items.len() - 1] == items.last());
    }
}

/// Whether `g` is what the function at place `k` of the foreign block at
/// place `i` of `items` becomes, and that function is no constructor of an
/// aggregate that stands before the block.
pub open spec fn stems_from(
    pods: Set<Text>,
    items: Seq<SpecItem>,
    i: int,
    k: int,
    g: SpecForeignItem,
) -> bool {
    &&& 0 <= i < items.len()
    &&& items[i] matches SpecItem::ForeignMod(fm)
    &&& 0 <= k < fm.items.len()
    &&& fm.items[k] matches SpecForeignItem::Fn(f)
    &&& !is_constructor_name(struct_names(items.take(i)), f.sig.ident)
    &&& convert_foreign_fn(struct_names(items.take(i)), class_names(pods, items.take(i)), f)
        == Some(g->Fn_0)
    &&& g is Fn
}

/// Every function of the bridge module's foreign block stems from a
/// function of the input that is no constructor of an aggregate standing
/// before its block: of a constructor `T_T` of such an aggregate `T` nothing
/// is left.
pub proof fn lemma_no_constructor_in_bridge(pods: Set<Text>, items: Seq<SpecItem>, j: int)
    requires
        0 <= j < foreign_functions(pods, items).len(),
    ensures
        exists|i: int, k: int| #[trigger]
            stems_from(pods, items, i, k, foreign_functions(pods, items)[j]),
    decreases items.len(),
{
    let before = items.drop_last();
    let rest = foreign_functions(pods, before);
    let g = foreign_functions(pods, items)[j];
    if j < rest.len() {
        lemma_no_constructor_in_bridge(pods, before, j);
        let (i, k) = choose|i: int, k: int| #[trigger] stems_from(pods, before, i, k, rest[j]);
        assert(before.take(i) =~= items.take(i));
        assert(items[i] == before[i]);
        assert(g == rest[j]);
        assert(stems_from(pods, items, i, k, g));
    } else {
        let fm = items.last()->ForeignMod_0;
        let i = items.len() - 1;
        assert(items.take(i) =~= before);
        let types = struct_names(before);
        let classes = class_names(pods, before);
        lemma_constructors_elided(types, classes, fm.items, j - rest.len());
        let k = choose|k: int|
            0 <= k < fm.items.len() && (#[trigger] fm.items[k] matches SpecForeignItem::Fn(f)
                && !is_constructor_name(types, f.sig.ident) && convert_foreign_mod_items(
                types,
                classes,
                fm.items,
            )[j - rest.len()] == SpecForeignItem::Fn(
                convert_foreign_fn(types, classes, f)->Some_0,
            ));
        assert(stems_from(pods, items, i, k, g));
    }
}

/// How many constructors the implementation blocks of the type named `ty`
/// hold among `items`.
pub open spec fn count_constructors(items: Seq<SpecItem>, ty: Text) -> nat
    decreases items.len(),
{
    if items.len() == 0 {
        0
    } else {
        count_constructors(items.drop_last(), ty) + (match items.last() {
            SpecItem::Impl(i) => if typename_of(i.self_ty) == Some(ty) {
                count_new_methods(i.items)
            } else {
                0
            },
            _ => 0,
        })
    }
}

/// How many methods named `new` are among the items of an implementation
/// block.
pub open spec fn count_new_methods(items: Seq<SpecImplItem>) -> nat
    decreases items.len(),
{
    if items.len() == 0 {
        0
    } else {
        count_new_methods(items.drop_last()) + (if is_constructor(items.last()) {
            1nat
        } else {
            0nat
        })
    }
}

/// How many factories for the type named `ty` are asked for.
pub open spec fn count_needs(needs: Seq<SpecAdditionalNeed>, ty: Text) -> nat
    decreases needs.len(),
{
    if needs.len() == 0 {
        0
    } else {
        count_needs(needs.drop_last(), ty) + (match needs.last() {
            SpecAdditionalNeed::MakeUnique(t, _) => if t == ty {
                1nat
            } else {
                0nat
            },
        })
    }
}

proof fn lemma_count_needs_add(a: Seq<SpecAdditionalNeed>, b: Seq<SpecAdditionalNeed>, ty: Text)
    ensures
        count_needs(a + b, ty) == count_needs(a, ty) + count_needs(b, ty),
    decreases b.len(),
{
    if b.len() == 0 {
        assert(a + b =~= a);
    } else {
        lemma_count_needs_add(a, b.drop_last(), ty);
        assert((a + b).drop_last() =~= a + b.drop_last());
        assert((a + b).last() == b.last());
    }
}

proof fn lemma_count_impl_needs(owner: Text, items: Seq<SpecImplItem>, ty: Text)
    ensures
        count_needs(make_unique_needs(owner, items), ty) == if owner == ty {
            count_new_methods(items)
        } else {
            0
        },
    decreases items.len(),
{
    if items.len() > 0 {
        lemma_count_impl_needs(owner, items.drop_last(), ty);
        let rest = make_unique_needs(owner, items.drop_last());
        match items.last() {
            SpecImplItem::Method(m) => {
                if m.sig.ident == "new"@ {
                    let need = SpecAdditionalNeed::MakeUnique(
                        owner,
                        constructor_args(m.sig.inputs),
                    );
                    assert(rest.push(need).drop_last() =~= rest);
                }
            },
            SpecImplItem::Other(_) => {},
        }
    }
}

/// For each type, as many factories are asked for as the implementation
/// blocks of that type hold constructors: one for each method named `new`.
pub proof fn lemma_one_factory_per_constructor(items: Seq<SpecItem>, ty: Text)
    ensures
        count_needs(additional_needs(items), ty) == count_constructors(items, ty),
    decreases items.len(),
{
    if items.len() > 0 {
        lemma_one_factory_per_constructor(items.drop_last(), ty);
        match items.last() {
            SpecItem::Impl(i) => {
                lemma_count_needs_add(additional_needs(items.drop_last()), needs_of_impl(i), ty);
                match typename_of(i.self_ty) {
                    Some(owner) => {
                        lemma_count_impl_needs(owner, i.items, ty);
                    },
                    None => {},
                }
            },
            _ => {},
        }
    }
}

/// The aggregates among the items of a module are finitely many, so that
/// the walk over the requests is defined.
pub proof fn lemma_aggregates_are_finite(items: Seq<SpecItem>)
    ensures
        aggregates_of(items).dom().finite(),
    decreases items.len(),
{
    if items.len() > 0 {
        lemma_aggregates_are_finite(items.drop_last());
    }
}

/// The names of the aggregates and enums among `items`, in order.
pub open spec fn declared_type_names(items: Seq<SpecItem>) -> Seq<Text>
    decreases items.len(),
{
    if items.len() == 0 {
        Seq::empty()
    } else {
        let rest = declared_type_names(items.drop_last());
        match items.last() {
            SpecItem::Struct(s) => rest.push(s.ident),
            SpecItem::Enum(e) => rest.push(e.ident),
            _ => rest,
        }
    }
}

/// The names of the records, in order.
pub open spec fn encountered_names(records: Seq<SpecEncounteredType>) -> Seq<Text> {
    records.map_values(|r: SpecEncounteredType| r.name)
}

/// The rewriter records each aggregate and each enum of the input once, in
/// the order of the input; so no name is recorded twice where the input
/// declares no type twice.
pub proof fn lemma_encountered_types_follow_input(items: Seq<SpecItem>)
    ensures
        encountered_names(encountered_types(items)) == declared_type_names(items),
        declared_type_names(items).no_duplicates() ==> encountered_names(
            encountered_types(items),
        ).no_duplicates(),
    decreases items.len(),
{
    if items.len() > 0 {
        lemma_encountered_types_follow_input(items.drop_last());
        let rest = encountered_types(items.drop_last());
        match items.last() {
            SpecItem::Struct(s) => {
                assert(encountered_names(encountered_types(items)) =~= encountered_names(
                    rest,
                ).push(s.ident));
            },
            SpecItem::Enum(e) => {
                assert(encountered_names(encountered_types(items)) =~= encountered_names(
                    rest,
                ).push(e.ident));
            },
            _ => {},
        }
    } else {
        assert(encountered_names(encountered_types(items)) =~= Seq::<Text>::empty());
    }
}

/// Whether each implementation block among `items` that holds a
/// constructor is a block of an aggregate among `items`.
pub open spec fn constructors_belong_to_aggregates(items: Seq<SpecItem>) -> bool {
    forall|i: int|
        0 <= i < items.len() && (#[trigger] items[i] matches SpecItem::Impl(b) && typename_of(
            b.self_ty,
        ) is Some && count_new_methods(b.items) > 0) ==> struct_names(items).contains(
            typename_of(items[i]->Impl_0.self_ty)->Some_0,
        )
}

proof fn lemma_counted_need(needs: Seq<SpecAdditionalNeed>, j: int)
    requires
        0 <= j < needs.len(),
    ensures
        count_needs(needs, needs[j]->MakeUnique_0) > 0,
    decreases needs.len(),
{
    if j < needs.len() - 1 {
        lemma_counted_need(needs.drop_last(), j);
    }
}

proof fn lemma_counted_constructor(items: Seq<SpecItem>, ty: Text) -> (i: int)
    requires
        count_constructors(items, ty) > 0,
    ensures
        0 <= i < items.len(),
        items[i] matches SpecItem::Impl(b) && typename_of(b.self_ty) == Some(ty)
            && count_new_methods(b.items) > 0,
    decreases items.len(),
{
    if count_constructors(items.drop_last(), ty) > 0 {
        lemma_counted_constructor(items.drop_last(), ty)
    } else {
        items.len() - 1
    }
}

/// Where the constructors of the input belong to aggregates of the input,
/// every factory that is asked for is a factory for such an aggregate.
pub proof fn lemma_factories_are_for_aggregates(items: Seq<SpecItem>, j: int)
    requires
        constructors_belong_to_aggregates(items),
        0 <= j < additional_needs(items).len(),
    ensures
        struct_names(items).contains(additional_needs(items)[j]->MakeUnique_0),
{
    let ty = additional_needs(items)[j]->MakeUnique_0;
    lemma_counted_need(additional_needs(items), j);
    lemma_one_factory_per_constructor(items, ty);
    let i = lemma_counted_constructor(items, ty);
}

} // verus!
