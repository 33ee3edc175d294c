//! The dependencies of an analysed API item on other API items.
//!
//! An item is known in two phases of analysis. The earlier phase knows the
//! field types of an aggregate; the later phase also knows what its
//! constructors and allocators depend on. The query is the same in both.
use vstd::prelude::*;
use crate::names::{QualifiedName, SpecQualifiedName, borrowed_names, name_texts, qualified_names};
use crate::text::{join_texts, joined, texts};

verus! {

/// Whether an aggregate is passed by value or stays behind a pointer.
#[derive(Debug, Clone, Copy, PartialEq, Eq, Structural)]
pub enum TypeKind {
    Pod,
    Opaque,
}

/// What the analysis of a type alias found.
#[derive(Debug, Clone, PartialEq, Eq)]
pub struct TypedefAnalysis {
    pub deps: Vec<QualifiedName>,
}

/// What the analysis of an aggregate found: its kind and the types of its
/// fields.
#[derive(Debug, Clone, PartialEq, Eq)]
pub struct PodAnalysis {
    pub kind: TypeKind,
    pub field_types: Vec<QualifiedName>,
}

/// The analysis of an aggregate, with what its constructors and allocators
/// depend on.
#[derive(Debug, Clone, PartialEq, Eq)]
pub struct PodAndDepAnalysis {
    pub pod: PodAnalysis,
    pub constructor_and_allocator_deps: Vec<QualifiedName>,
}

/// What the analysis of a function found.
#[derive(Debug, Clone, PartialEq, Eq)]
pub struct FnAnalysis {
    pub deps: Vec<QualifiedName>,
}

/// A function that a subclass written on the safe side needs.
#[derive(Debug, Clone, PartialEq, Eq)]
pub struct RustSubclassFnDetails {
    pub dependencies: Vec<QualifiedName>,
}

/// A phase of analysis: the payloads that the items carry in it.
pub trait AnalysisPhase {
    type TypedefAnalysis;

    type StructAnalysis;

    type FunAnalysis;
}

/// The phase in which the field types of aggregates are known.
#[derive(Debug)]
pub struct FnPrePhase;

/// The phase in which constructor and allocator dependencies are known too.
#[derive(Debug)]
pub struct FnPhase;

impl AnalysisPhase for FnPrePhase {
    type TypedefAnalysis = TypedefAnalysis;

    type StructAnalysis = PodAnalysis;

    type FunAnalysis = FnAnalysis;
}

impl AnalysisPhase for FnPhase {
    type TypedefAnalysis = TypedefAnalysis;

    type StructAnalysis = PodAndDepAnalysis;

    type FunAnalysis = FnAnalysis;
}

/// One item of the native interface, as analysed in the phase `T`.
#[allow(inconsistent_fields)]
pub enum Api<T: AnalysisPhase> {
    /// A type that is declared and not defined.
    ForwardDeclaration { name: QualifiedName },
    /// A type alias; `old_tyname` is the aliased type where it is known.
    Typedef {
        name: QualifiedName,
        old_tyname: Option<QualifiedName>,
        analysis: T::TypedefAnalysis,
    },
    /// An aggregate.
    Struct { name: QualifiedName, analysis: T::StructAnalysis },
    /// An enum.
    Enum { name: QualifiedName },
    /// A constant.
    Const { name: QualifiedName },
    /// A function.
    Function { name: QualifiedName, analysis: T::FunAnalysis },
    /// A subclass written on the safe side, with its superclass.
    Subclass { name: QualifiedName, superclass: QualifiedName },
    /// A function that such a subclass needs.
    RustSubclassFn { name: QualifiedName, details: RustSubclassFnDetails },
}

impl<T: AnalysisPhase> Api<T> {
    /// The model of the item's name.
    pub open spec fn spec_name(&self) -> SpecQualifiedName {
        match self {
            Api::ForwardDeclaration { name } => name@,
            Api::Typedef { name, .. } => name@,
            Api::Struct { name, .. } => name@,
            Api::Enum { name } => name@,
            Api::Const { name } => name@,
            Api::Function { name, .. } => name@,
            Api::Subclass { name, .. } => name@,
            Api::RustSubclassFn { name, .. } => name@,
        }
    }

    /// The item's name.
    pub fn name(&self) -> (r: &QualifiedName)
        ensures
            r@ == self.spec_name(),
    {
        match self {
            Api::ForwardDeclaration { name } => name,
            Api::Typedef { name, .. } => name,
            Api::Struct { name, .. } => name,
            Api::Enum { name } => name,
            Api::Const { name } => name,
            Api::Function { name, .. } => name,
            Api::Subclass { name, .. } => name,
            Api::RustSubclassFn { name, .. } => name,
        }
    }
}

/// The model of an optional name as a sequence: one element or none.
pub open spec fn optional_name(o: Option<QualifiedName>) -> Seq<SpecQualifiedName> {
    match o {
        Some(n) => seq![n@],
        None => Seq::empty(),
    }
}

/// The dependencies of an item in the earlier phase, in order: for an alias
/// the aliased type and then what its analysis found; for an aggregate that
/// is passed by value its field types; for a function what its analysis
/// found; for a subclass its superclass; for a subclass function its recorded
/// dependencies; nothing for any other item.
pub open spec fn pre_phase_deps(api: Api<FnPrePhase>) -> Seq<SpecQualifiedName> {
    match api {
        Api::Typedef { old_tyname, analysis, .. } => optional_name(old_tyname) + qualified_names(
            analysis.deps@,
        ),
        Api::Struct { analysis, .. } => if analysis.kind == TypeKind::Pod {
            qualified_names(analysis.field_types@)
        } else {
            Seq::empty()
        },
        Api::Function { analysis, .. } => qualified_names(analysis.deps@),
        Api::Subclass { superclass, .. } => seq![superclass@],
        Api::RustSubclassFn { details, .. } => qualified_names(details.dependencies@),
        _ => Seq::empty(),
    }
}

/// The dependencies of an item in the later phase, in order. They are those
/// of the earlier phase, but for an aggregate: one that is passed by value
/// depends on its field types and then on what its constructors and
/// allocators depend on, an opaque one on the latter alone.
pub open spec fn phase_deps(api: Api<FnPhase>) -> Seq<SpecQualifiedName> {
    match api {
        Api::Typedef { old_tyname, analysis, .. } => optional_name(old_tyname) + qualified_names(
            analysis.deps@,
        ),
        Api::Struct { analysis, .. } => if analysis.pod.kind == TypeKind::Pod {
            qualified_names(analysis.pod.field_types@) + qualified_names(
                analysis.constructor_and_allocator_deps@,
            )
        } else {
            qualified_names(analysis.constructor_and_allocator_deps@)
        },
        Api::Function { analysis, .. } => qualified_names(analysis.deps@),
        Api::Subclass { superclass, .. } => seq![superclass@],
        Api::RustSubclassFn { details, .. } => qualified_names(details.dependencies@),
        _ => Seq::empty(),
    }
}

/// Appends a reference to each name of `src` to `out`.
fn push_all<'a>(out: &mut Vec<&'a QualifiedName>, src: &'a Vec<QualifiedName>)
    ensures
        borrowed_names(final(out)@) == borrowed_names(old(out)@) + qualified_names(src@),
{
    let mut i: usize = 0;
    let ghost before = borrowed_names(out@);
    proof {
        assert(qualified_names(src@).take(0) =~= Seq::<SpecQualifiedName>::empty());
        assert(before + Seq::<SpecQualifiedName>::empty() =~= before);
    }
    while i < src.len()
        invariant
            i <= src.len(),
            borrowed_names(out@) == before + qualified_names(src@).take(i as int),
        decreases src.len() - i,
    {
        let ghost prev = out@;
        out.push(&src[i]);
        proof {
            assert(borrowed_names(out@) =~= borrowed_names(prev).push(src[i as int]@));
            assert(qualified_names(src@).take(i + 1) =~= qualified_names(src@).take(
                i as int,
            ).push(src[i as int]@));
        }
        i += 1;
    }
    proof {
        assert(qualified_names(src@).take(src.len() as int) =~= qualified_names(src@));
    }
}

/// An item that depends on other items.
pub trait HasDependencies {
    /// The model of the item's name.
    spec fn item_name(&self) -> SpecQualifiedName;

    /// The names that the item depends on, in order; a name may occur more
    /// than once.
    spec fn dep_names(&self) -> Seq<SpecQualifiedName>;

    /// The item's name.
    fn name(&self) -> (r: &QualifiedName)
        ensures
            r@ == self.item_name(),
    ;

    /// The names that the item depends on.
    fn deps(&self) -> (r: Vec<&QualifiedName>)
        ensures
            borrowed_names(r@) == self.dep_names(),
    ;

    /// The written forms of the names that the item depends on, with a comma
    /// between each two.
    fn format_deps(&self) -> (r: String)
        ensures
            r@ == joined(name_texts(self.dep_names()), ","@),
    {
        let deps = self.deps();
        let mut parts: Vec<String> = Vec::new();
        let mut i: usize = 0;
        while i < deps.len()
            invariant
                i <= deps.len(),
                parts.len() == i,
                forall|k: int| 0 <= k < i ==> parts[k]@ == (#[trigger] deps[k])@.text(),
            decreases deps.len() - i,
        {
            parts.push(deps[i].to_text());
            i += 1;
        }
        assert(texts(parts@) =~= name_texts(borrowed_names(deps@)));
        join_texts(&parts, ",")
    }
}

impl HasDependencies for Api<FnPrePhase> {
    open spec fn item_name(&self) -> SpecQualifiedName {
        self.spec_name()
    }

    open spec fn dep_names(&self) -> Seq<SpecQualifiedName> {
        pre_phase_deps(*self)
    }

    fn name(&self) -> (r: &QualifiedName) {
        self.name()
    }

    fn deps(&self) -> (r: Vec<&QualifiedName>) {
        let mut out: Vec<&QualifiedName> = Vec::new();
        proof {
            assert(borrowed_names(out@) =~= Seq::<SpecQualifiedName>::empty());
        }
        match self {
            Api::Typedef { old_tyname, analysis, .. } => {
                match old_tyname {
                    Some(n) => {
                        out.push(n);
                        assert(borrowed_names(out@) =~= optional_name(*old_tyname));
                    },
                    None => {},
                }
                push_all(&mut out, &analysis.deps);
            },
            Api::Struct { analysis, .. } => {
                match analysis.kind {
                    TypeKind::Pod => {
                        push_all(&mut out, &analysis.field_types);
                    },
                    TypeKind::Opaque => {},
                }
            },
            Api::Function { analysis, .. } => {
                push_all(&mut out, &analysis.deps);
            },
            Api::Subclass { superclass, .. } => {
                out.push(superclass);
                assert(borrowed_names(out@) =~= seq![superclass@]);
            },
            Api::RustSubclassFn { details, .. } => {
                push_all(&mut out, &details.dependencies);
            },
            _ => {},
        }
        assert(borrowed_names(out@) =~= pre_phase_deps(*self));
        out
    }
}

impl HasDependencies for Api<FnPhase> {
    open spec fn item_name(&self) -> SpecQualifiedName {
        self.spec_name()
    }

    open spec fn dep_names(&self) -> Seq<SpecQualifiedName> {
        phase_deps(*self)
    }

    fn name(&self) -> (r: &QualifiedName) {
        self.name()
    }

    fn deps(&self) -> (r: Vec<&QualifiedName>) {
        let mut out: Vec<&QualifiedName> = Vec::new();
        proof {
            assert(borrowed_names(out@) =~= Seq::<SpecQualifiedName>::empty());
        }
        match self {
            Api::Typedef { old_tyname, analysis, .. } => {
                match old_tyname {
                    Some(n) => {
                        out.push(n);
                        assert(borrowed_names(out@) =~= optional_name(*old_tyname));
                    },
                    None => {},
                }
                push_all(&mut out, &analysis.deps);
            },
            Api::Struct { analysis, .. } => {
                match analysis.pod.kind {
                    TypeKind::Pod => {
                        push_all(&mut out, &analysis.pod.field_types);
                    },
                    TypeKind::Opaque => {},
                }
                push_all(&mut out, &analysis.constructor_and_allocator_deps);
            },
            Api::Function { analysis, .. } => {
                push_all(&mut out, &analysis.deps);
            },
            Api::Subclass { superclass, .. } => {
                out.push(superclass);
                assert(borrowed_names(out@) =~= seq![superclass@]);
            },
            Api::RustSubclassFn { details, .. } => {
                push_all(&mut out, &details.dependencies);
            },
            _ => {},
        }
        assert(borrowed_names(out@) =~= phase_deps(*self));
        out
    }
}

/// Whether `n` is the model of one of the names `v`.
pub open spec fn holds_name(v: Seq<QualifiedName>, n: SpecQualifiedName) -> bool {
    exists|i: int| 0 <= i < v.len() && (#[trigger] v[i])@ == n
}

/// Whether the payload that an item of the earlier phase carries for its
/// kind names `n`.
pub open spec fn pre_phase_mentions(api: Api<FnPrePhase>, n: SpecQualifiedName) -> bool {
    match api {
        Api::Typedef { old_tyname, analysis, .. } => (old_tyname matches Some(o) && o@ == n)
            || holds_name(analysis.deps@, n),
        Api::Struct { analysis, .. } => analysis.kind == TypeKind::Pod && holds_name(
            analysis.field_types@,
            n,
        ),
        Api::Function { analysis, .. } => holds_name(analysis.deps@, n),
        Api::Subclass { superclass, .. } => superclass@ == n,
        Api::RustSubclassFn { details, .. } => holds_name(details.dependencies@, n),
        _ => false,
    }
}

/// Whether the payload that an item of the later phase carries for its kind
/// names `n`.
pub open spec fn phase_mentions(api: Api<FnPhase>, n: SpecQualifiedName) -> bool {
    match api {
        Api::Typedef { old_tyname, analysis, .. } => (old_tyname matches Some(o) && o@ == n)
            || holds_name(analysis.deps@, n),
        Api::Struct { analysis, .. } => (analysis.pod.kind == TypeKind::Pod && holds_name(
            analysis.pod.field_types@,
            n,
        )) || holds_name(analysis.constructor_and_allocator_deps@, n),
        Api::Function { analysis, .. } => holds_name(analysis.deps@, n),
        Api::Subclass { superclass, .. } => superclass@ == n,
        Api::RustSubclassFn { details, .. } => holds_name(details.dependencies@, n),
        _ => false,
    }
}

proof fn lemma_holds_name(v: Seq<QualifiedName>, n: SpecQualifiedName)
    ensures
        holds_name(v, n) <==> qualified_names(v).contains(n),
{
    if holds_name(v, n) {
        let i = choose|i: int| 0 <= i < v.len() && (#[trigger] v[i])@ == n;
        assert(qualified_names(v)[i] == n);
    }
    if qualified_names(v).contains(n) {
        let i = choose|i: int| 0 <= i < qualified_names(v).len() && qualified_names(v)[i] == n;
        assert(v[i]@ == n);
    }
}

proof fn lemma_contains_in_sum(
    a: Seq<SpecQualifiedName>,
    b: Seq<SpecQualifiedName>,
    n: SpecQualifiedName,
)
    ensures
        (a + b).contains(n) <==> a.contains(n) || b.contains(n),
{
    if a.contains(n) {
        let i = choose|i: int| 0 <= i < a.len() && a[i] == n;
        assert((a + b)[i] == n);
    }
    if b.contains(n) {
        let i = choose|i: int| 0 <= i < b.len() && b[i] == n;
        assert((a + b)[a.len() + i] == n);
    }
    if (a + b).contains(n) {
        let i = choose|i: int| 0 <= i < (a + b).len() && (a + b)[i] == n;
        if i < a.len() {
            assert(a[i] == n);
        } else {
            assert(b[i - a.len()] == n);
        }
    }
}

/// In the earlier phase the dependencies of an item hold every name that
/// its payload names for its kind, and no other.
pub proof fn lemma_pre_phase_deps_complete(api: Api<FnPrePhase>, n: SpecQualifiedName)
    ensures
        pre_phase_mentions(api, n) <==> api.dep_names().contains(n),
{
    match api {
        Api::Typedef { old_tyname, analysis, .. } => {
            lemma_holds_name(analysis.deps@, n);
            lemma_contains_in_sum(optional_name(old_tyname), qualified_names(analysis.deps@), n);
            match old_tyname {
                Some(o) => {
                    assert(optional_name(old_tyname)[0] == o@);
                },
                None => {},
            }
        },
        Api::Struct { analysis, .. } => {
            lemma_holds_name(analysis.field_types@, n);
        },
        Api::Function { analysis, .. } => {
            lemma_holds_name(analysis.deps@, n);
        },
        Api::Subclass { superclass, .. } => {
            assert(seq![superclass@][0] == superclass@);
        },
        Api::RustSubclassFn { details, .. } => {
            lemma_holds_name(details.dependencies@, n);
        },
        _ => {},
    }
}

/// In the later phase the dependencies of an item hold every name that its
/// payload names for its kind, and no other.
pub proof fn lemma_phase_deps_complete(api: Api<FnPhase>, n: SpecQualifiedName)
    ensures
        phase_mentions(api, n) <==> api.dep_names().contains(n),
{
    match api {
        Api::Typedef { old_tyname, analysis, .. } => {
            lemma_holds_name(analysis.deps@, n);
            lemma_contains_in_sum(optional_name(old_tyname), qualified_names(analysis.deps@), n);
            match old_tyname {
                Some(o) => {
                    assert(optional_name(old_tyname)[0] == o@);
                },
                None => {},
            }
        },
        Api::Struct { analysis, .. } => {
            lemma_holds_name(analysis.pod.field_types@, n);
            lemma_holds_name(analysis.constructor_and_allocator_deps@, n);
            lemma_contains_in_sum(
                qualified_names(analysis.pod.field_types@),
                qualified_names(analysis.constructor_and_allocator_deps@),
                n,
            );
        },
        Api::Function { analysis, .. } => {
            lemma_holds_name(analysis.deps@, n);
        },
        Api::Subclass { superclass, .. } => {
            assert(seq![superclass@][0] == superclass@);
        },
        Api::RustSubclassFn { details, .. } => {
            lemma_holds_name(details.dependencies@, n);
        },
        _ => {},
    }
}

} // verus!
