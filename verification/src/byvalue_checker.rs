//! Decides which aggregates may cross the bridge by value.
//!
//! The checker is told of every aggregate that was found, and records for
//! each the types that its fields name. A request to pass a type by value is
//! granted when every type that can be reached from it through fields is
//! either held by the registry as safe or is an aggregate that the checker
//! was told of. A type that the registry holds as unsafe, or that nobody
//! knows, refuses the request.
use vstd::prelude::*;
use crate::known_types::{known_type, known_unsafe, lookup};
use crate::names::{TypeName, type_names};
use crate::syntax::{ItemStruct, Type, TypePath, fields_view};
use crate::syntax_model::{SpecField, SpecType, SpecTypePath, Text};
use crate::text::{contains_text, same_text, texts};

verus! {

/// The verdict on one aggregate.
#[derive(Debug, Clone, Copy, PartialEq, Eq, Structural)]
pub enum TypeClassification {
    /// The aggregate may be copied and moved as a value.
    ValueSafe,
    /// The aggregate stays behind a pointer or a reference.
    Opaque,
}

/// The name of a path-shaped type: the identifier of its last segment.
pub open spec fn path_name(p: SpecTypePath) -> Option<Text> {
    if p.segments.len() > 0 {
        Some(p.segments.last().ident)
    } else {
        None
    }
}

/// The name of a type, where it is path-shaped.
pub open spec fn typename_of(t: SpecType) -> Option<Text> {
    match t {
        SpecType::Path(p) => path_name(p),
        _ => None,
    }
}

/// The name that a field of type `t` depends on: the name of `t`, or of what
/// `t` points at or refers to.
pub open spec fn pointee_name(t: SpecType) -> Option<Text>
    decreases t,
{
    match t {
        SpecType::Path(p) => path_name(p),
        SpecType::Reference(r) => pointee_name(*r.elem),
        SpecType::Ptr(p) => pointee_name(*p.elem),
        SpecType::Other(_) => None,
    }
}

/// The names that the fields depend on, in the order of the fields.
pub open spec fn field_type_names(fields: Seq<SpecField>) -> Seq<Text>
    decreases fields.len(),
{
    if fields.len() == 0 {
        Seq::empty()
    } else {
        let rest = field_type_names(fields.drop_last());
        match pointee_name(fields.last().ty) {
            Some(n) => rest.push(n),
            None => rest,
        }
    }
}

/// The aggregates that a checker was told of: each name with the names that
/// its fields depend on.
pub type Aggregates = Map<Text, Seq<Text>>;

/// Whether `n` is an aggregate whose fields are looked into: the checker was
/// told of it and the registry does not hold it.
pub open spec fn expandable(g: Aggregates, n: Text) -> bool {
    known_type(n) is None && g.dom().contains(n)
}

/// Whether `n` cannot be passed by value: the registry holds it as unsafe,
/// or neither the registry nor the checker knows it.
pub open spec fn offending(g: Aggregates, n: Text) -> bool {
    known_unsafe(n) || (known_type(n) is None && !g.dom().contains(n))
}

/// Whether each name of `p` but the first is named by a field of the one
/// before it.
pub open spec fn is_field_path(g: Aggregates, p: Seq<Text>) -> bool {
    &&& p.len() > 0
    &&& forall|i: int|
        0 <= i < p.len() - 1 ==> expandable(g, #[trigger] p[i]) && g[p[i]].contains(p[i + 1])
}

/// Whether `to` is `from` or is reached from it through fields.
pub open spec fn reaches(g: Aggregates, from: Text, to: Text) -> bool {
    exists|p: Seq<Text>| #[trigger] is_field_path(g, p) && p.first() == from && p.last() == to
}

/// Whether `n` is reached from one of the requested names.
pub open spec fn reached(g: Aggregates, requests: Seq<Text>, n: Text) -> bool {
    exists|i: int| 0 <= i < requests.len() && reaches(g, #[trigger] requests[i], n)
}

/// The first offending name that a walk over `work` meets, if it meets one.
///
/// The walk takes the names of `work` in their order. An aggregate that
/// it meets for the first time is looked into: the names that its fields
/// depend on are walked, in the order of the fields, before the names that
/// follow the aggregate. `seen` holds the aggregates that were looked into
/// before.
pub open spec fn first_offending(g: Aggregates, work: Seq<Text>, seen: Set<Text>) -> Option<Text>
    decreases g.dom().difference(seen).len(), work.len(),
    when g.dom().finite()
{
    if work.len() == 0 {
        None
    } else if offending(g, work.first()) {
        Some(work.first())
    } else if expandable(g, work.first()) && !seen.contains(work.first()) {
        proof {
            let n = work.first();
            assert(g.dom().difference(seen.insert(n)) =~= g.dom().difference(seen).remove(n));
        }
        first_offending(g, g[work.first()] + work.drop_first(), seen.insert(work.first()))
    } else {
        first_offending(g, work.drop_first(), seen)
    }
}

/// The offending name that a request for `requests` is refused with, if it
/// is refused: the first that a walk over the requests meets.
pub open spec fn refusal(g: Aggregates, requests: Seq<Text>) -> Option<Text> {
    first_offending(g, requests, Set::empty())
}

/// What the checker holds of one aggregate.
#[derive(Debug)]
struct StructDetails {
    name: String,
    dependent_structs: Vec<String>,
}

/// The aggregates of `entries` as a map; a later entry replaces an earlier
/// one of the same name.
spec fn as_map(entries: Seq<StructDetails>) -> Aggregates
    decreases entries.len(),
{
    if entries.len() == 0 {
        Map::empty()
    } else {
        as_map(entries.drop_last()).insert(
            entries.last().name@,
            texts(entries.last().dependent_structs@),
        )
    }
}

/// The checker: the aggregates it was told of.
#[derive(Debug)]
pub struct ByValueChecker {
    results: Vec<StructDetails>,
}

impl View for ByValueChecker {
    type V = Aggregates;

    closed spec fn view(&self) -> Aggregates {
        as_map(self.results@)
    }
}

/// The verdicts of one classification: the names that are passed by value.
#[derive(Debug)]
pub struct Verdicts {
    value_safe: Vec<String>,
}

impl View for Verdicts {
    type V = Set<Text>;

    closed spec fn view(&self) -> Set<Text> {
        Set::new(|n: Text| texts(self.value_safe@).contains(n))
    }
}

impl Verdicts {
    /// Whether `name` is passed by value.
    pub fn is_pod(&self, name: &TypeName) -> (r: bool)
        ensures
            r == self@.contains(name@),
    {
        contains_text(&self.value_safe, name.as_str())
    }

    /// The verdict on `name`.
    pub fn verdict(&self, name: &TypeName) -> (r: TypeClassification)
        ensures
            r == if self@.contains(name@) {
                TypeClassification::ValueSafe
            } else {
                TypeClassification::Opaque
            },
    {
        if self.is_pod(name) {
            TypeClassification::ValueSafe
        } else {
            TypeClassification::Opaque
        }
    }
}

/// The name of a path-shaped type, where it has a segment.
pub fn name_of_path(p: &TypePath) -> (r: Option<TypeName>)
    ensures
        match r {
            Some(n) => path_name(p@) == Some(n@),
            None => path_name(p@) is None,
        },
{
    let n = p.segments.len();
    if n > 0 {
        Some(TypeName::from_ident(&p.segments[n - 1].ident))
    } else {
        None
    }
}

/// The name that a field of type `ty` depends on.
pub fn name_of_pointee(ty: &Type) -> (r: Option<TypeName>)
    ensures
        match r {
            Some(n) => pointee_name(ty@) == Some(n@),
            None => pointee_name(ty@) is None,
        },
    decreases ty,
{
    match ty {
        Type::Path(p) => name_of_path(p),
        Type::Reference(r) => name_of_pointee(&r.elem),
        Type::Ptr(p) => name_of_pointee(&p.elem),
        Type::Other(_) => None,
    }
}

/// The count of the entries of `marks` that are not set.
pub open spec fn unmarked(marks: Seq<bool>) -> nat
    decreases marks.len(),
{
    if marks.len() == 0 {
        0
    } else {
        unmarked(marks.drop_last()) + if marks.last() {
            0nat
        } else {
            1nat
        }
    }
}

proof fn lemma_mark(marks: Seq<bool>, j: int)
    requires
        0 <= j < marks.len(),
        !marks[j],
    ensures
        unmarked(marks.update(j, true)) + 1 == unmarked(marks),
    decreases marks.len(),
{
    let after = marks.update(j, true);
    if j == marks.len() - 1 {
        assert(after.drop_last() =~= marks.drop_last());
    } else {
        lemma_mark(marks.drop_last(), j);
        assert(after.drop_last() =~= marks.drop_last().update(j, true));
    }
}

proof fn lemma_reaches_self(g: Aggregates, n: Text)
    ensures
        reaches(g, n, n),
{
    let p = seq![n];
    assert(is_field_path(g, p));
    assert(p.first() == n && p.last() == n);
}

proof fn lemma_reaches_step(g: Aggregates, from: Text, via: Text, to: Text)
    requires
        reaches(g, from, via),
        expandable(g, via),
        g[via].contains(to),
    ensures
        reaches(g, from, to),
{
    let p = choose|p: Seq<Text>| #[trigger]
        is_field_path(g, p) && p.first() == from && p.last() == via;
    let q = p.push(to);
    assert forall|i: int| 0 <= i < q.len() - 1 implies expandable(g, #[trigger] q[i]) && g[q[i]].contains(
        q[i + 1],
    ) by {
        if i < p.len() - 1 {
            assert(q[i] == p[i]);
            assert(q[i + 1] == p[i + 1]);
        } else {
            assert(q[i] == via);
        }
    }
    assert(is_field_path(g, q));
    assert(q.first() == from && q.last() == to);
}

proof fn lemma_as_map_last(entries: Seq<StructDetails>, n: Text, j: int)
    requires
        0 <= j < entries.len(),
        entries[j].name@ == n,
        forall|k: int| j < k < entries.len() ==> (#[trigger] entries[k]).name@ != n,
    ensures
        as_map(entries).dom().contains(n),
        as_map(entries)[n] == texts(entries[j].dependent_structs@),
    decreases entries.len(),
{
    if j < entries.len() - 1 {
        assert(entries.last() == entries[entries.len() - 1]);
        lemma_as_map_last(entries.drop_last(), n, j);
    }
}

proof fn lemma_as_map_finite(entries: Seq<StructDetails>)
    ensures
        as_map(entries).dom().finite(),
    decreases entries.len(),
{
    if entries.len() > 0 {
        lemma_as_map_finite(entries.drop_last());
    }
}

proof fn lemma_as_map_absent(entries: Seq<StructDetails>, n: Text)
    requires
        forall|k: int| 0 <= k < entries.len() ==> (#[trigger] entries[k]).name@ != n,
    ensures
        !as_map(entries).dom().contains(n),
    decreases entries.len(),
{
    if entries.len() > 0 {
        assert(entries.last() == entries[entries.len() - 1]);
        lemma_as_map_absent(entries.drop_last(), n);
    }
}

/// Whether every request and every field of a granted aggregate has been
/// granted or waits in `worklist`.
spec fn closed_under_fields(
    g: Aggregates,
    requests: Seq<Text>,
    granted: Seq<Text>,
    worklist: Seq<Text>,
) -> bool {
    &&& forall|i: int|
        0 <= i < requests.len() ==> granted.contains(#[trigger] requests[i]) || worklist.contains(
            requests[i],
        )
    &&& forall|n: Text, f: Text|
        granted.contains(n) && expandable(g, n) && #[trigger] g[n].contains(f)
            ==> #[trigger] granted.contains(f) || worklist.contains(f)
}

/// Whether every name of `s` is reached from a request.
spec fn all_reached(g: Aggregates, requests: Seq<Text>, s: Seq<Text>) -> bool {
    forall|n: Text| #[trigger] s.contains(n) ==> reached(g, requests, n)
}

/// Whether no name of `s` is offending.
spec fn none_offending(g: Aggregates, s: Seq<Text>) -> bool {
    forall|n: Text| #[trigger] s.contains(n) ==> !offending(g, n)
}

proof fn lemma_push_contains(s: Seq<Text>, x: Text)
    ensures
        forall|y: Text| #[trigger] s.push(x).contains(y) <==> s.contains(y) || y == x,
{
    assert forall|y: Text| #[trigger] s.push(x).contains(y) <==> s.contains(y) || y == x by {
        if s.contains(y) {
            let k = choose|k: int| 0 <= k < s.len() && s[k] == y;
            assert(s.push(x)[k] == y);
        }
        if y == x {
            assert(s.push(x)[s.len() as int] == y);
        }
        if s.push(x).contains(y) {
            let k = choose|k: int| 0 <= k < s.push(x).len() && s.push(x)[k] == y;
            if k < s.len() {
                assert(s[k] == y);
            }
        }
    }
}

proof fn lemma_drop_last_contains(s: Seq<Text>)
    requires
        s.len() > 0,
    ensures
        forall|y: Text| #[trigger] s.contains(y) ==> s.drop_last().contains(y) || y == s.last(),
        forall|y: Text| #[trigger] s.drop_last().contains(y) ==> s.contains(y),
        s.contains(s.last()),
{
    assert(s =~= s.drop_last().push(s.last()));
    lemma_push_contains(s.drop_last(), s.last());
    assert forall|y: Text| #[trigger] s.contains(y) implies s.drop_last().contains(y) || y
        == s.last() by {
        assert(s.drop_last().push(s.last()).contains(y));
    }
    assert forall|y: Text| #[trigger] s.drop_last().contains(y) implies s.contains(y) by {
        assert(s.drop_last().push(s.last()).contains(y));
    }
    assert(s.drop_last().push(s.last()).contains(s.last()));
}

proof fn lemma_add_contains(a: Seq<Text>, b: Seq<Text>)
    ensures
        forall|y: Text| #[trigger] (a + b).contains(y) <==> a.contains(y) || b.contains(y),
{
    assert forall|y: Text| #[trigger] (a + b).contains(y) <==> a.contains(y) || b.contains(y) by {
        if a.contains(y) {
            let k = choose|k: int| 0 <= k < a.len() && a[k] == y;
            assert((a + b)[k] == y);
        }
        if b.contains(y) {
            let k = choose|k: int| 0 <= k < b.len() && b[k] == y;
            assert((a + b)[a.len() + k] == y);
        }
        if (a + b).contains(y) {
            let k = choose|k: int| 0 <= k < (a + b).len() && (a + b)[k] == y;
            if k < a.len() {
                assert(a[k] == y);
            } else {
                assert(b[k - a.len()] == y);
            }
        }
    }
}

proof fn lemma_reverse_contains(s: Seq<Text>)
    ensures
        forall|y: Text| #[trigger] s.reverse().contains(y) <==> s.contains(y),
{
    assert forall|y: Text| #[trigger] s.reverse().contains(y) <==> s.contains(y) by {
        if s.contains(y) {
            let k = choose|k: int| 0 <= k < s.len() && s[k] == y;
            assert(s.reverse()[s.len() - 1 - k] == y);
        }
        if s.reverse().contains(y) {
            let k = choose|k: int| 0 <= k < s.reverse().len() && s.reverse()[k] == y;
            assert(s[s.len() - 1 - k] == y);
        }
    }
}

proof fn lemma_closed_step(
    g: Aggregates,
    requests: Seq<Text>,
    granted: Seq<Text>,
    worklist: Seq<Text>,
    granted2: Seq<Text>,
    worklist2: Seq<Text>,
)
    requires
        closed_under_fields(g, requests, granted, worklist),
        forall|x: Text| granted.contains(x) ==> #[trigger] granted2.contains(x),
        forall|x: Text| #[trigger]
            worklist.contains(x) ==> granted2.contains(x) || worklist2.contains(x),
        forall|n: Text, f: Text|
            #[trigger] granted2.contains(n) && !granted.contains(n) && expandable(g, n)
                && #[trigger] g[n].contains(f) ==> granted2.contains(f) || worklist2.contains(f),
    ensures
        closed_under_fields(g, requests, granted2, worklist2),
{
    assert forall|i: int| 0 <= i < requests.len() implies granted2.contains(
        #[trigger] requests[i],
    ) || worklist2.contains(requests[i]) by {
        if !granted.contains(requests[i]) {
            assert(worklist.contains(requests[i]));
        }
    }
    assert forall|n: Text, f: Text|
        granted2.contains(n) && expandable(g, n) && #[trigger] g[n].contains(
            f,
        ) implies #[trigger] granted2.contains(f) || worklist2.contains(f) by {
        if granted.contains(n) {
            if !granted.contains(f) {
                assert(worklist.contains(f));
            }
        }
    }
}

proof fn lemma_path_granted(
    g: Aggregates,
    requests: Seq<Text>,
    granted: Seq<Text>,
    p: Seq<Text>,
    k: int,
)
    requires
        closed_under_fields(g, requests, granted, Seq::empty()),
        is_field_path(g, p),
        granted.contains(p.first()),
        0 <= k < p.len(),
    ensures
        granted.contains(p[k]),
    decreases k,
{
    if k > 0 {
        lemma_path_granted(g, requests, granted, p, k - 1);
        assert(expandable(g, p[k - 1]) && g[p[k - 1]].contains(p[k - 1 + 1]));
        assert(!Seq::<Text>::empty().contains(p[k]));
    }
}

proof fn lemma_reached_granted(g: Aggregates, requests: Seq<Text>, granted: Seq<Text>, n: Text)
    requires
        closed_under_fields(g, requests, granted, Seq::empty()),
        reached(g, requests, n),
    ensures
        granted.contains(n),
{
    let i = choose|i: int| 0 <= i < requests.len() && reaches(g, #[trigger] requests[i], n);
    let p = choose|p: Seq<Text>| #[trigger]
        is_field_path(g, p) && p.first() == requests[i] && p.last() == n;
    assert(!Seq::<Text>::empty().contains(requests[i]));
    lemma_path_granted(g, requests, granted, p, p.len() - 1);
}

impl ByValueChecker {
    /// A checker that was told of no aggregate.
    pub fn new() -> (r: Self)
        ensures
            r@ == Map::<Text, Seq<Text>>::empty(),
    {
        ByValueChecker { results: Vec::new() }
    }

    /// The names that the fields of `def` depend on.
    fn get_field_types(def: &ItemStruct) -> (r: Vec<String>)
        ensures
            texts(r@) == field_type_names(def@.fields),
    {
        let mut results: Vec<String> = Vec::new();
        let mut i: usize = 0;
        proof {
            assert(fields_view(def.fields@).take(0) =~= Seq::<SpecField>::empty());
            assert(texts(results@) =~= Seq::<Text>::empty());
        }
        while i < def.fields.len()
            invariant
                i <= def.fields.len(),
                texts(results@) == field_type_names(fields_view(def.fields@).take(i as int)),
            decreases def.fields.len() - i,
        {
            proof {
                let all = fields_view(def.fields@);
                assert(all.take(i + 1).drop_last() =~= all.take(i as int));
                assert(all.take(i + 1).last() == def.fields[i as int]@);
            }
            let ghost before = results@;
            match name_of_pointee(&def.fields[i].ty) {
                Some(n) => {
                    results.push(n.0);
                    assert(texts(results@) =~= texts(before).push(n@));
                },
                None => {},
            }
            i += 1;
        }
        proof {
            let all = fields_view(def.fields@);
            assert(all.take(all.len() as int) =~= all);
        }
        results
    }

    /// Tells the checker of the aggregate `def`: it records the names that
    /// the fields of `def` depend on. To tell it of the same aggregate again
    /// changes nothing.
    pub fn ingest_struct(&mut self, def: &ItemStruct)
        ensures
            final(self)@ == old(self)@.insert(def@.ident, field_type_names(def@.fields)),
    {
        let dependent_structs = Self::get_field_types(def);
        let ghost before = self.results@;
        self.results.push(StructDetails { name: def.ident.clone(), dependent_structs });
        proof {
            assert(self.results@.drop_last() =~= before);
        }
    }

    /// The place of the entry that stands for `name`: the last one of that
    /// name.
    fn find(&self, name: &str) -> (r: Option<usize>)
        ensures
            match r {
                Some(j) => j < self.results.len() && self.results[j as int].name@ == name@
                    && self@.dom().contains(name@) && self@[name@] == texts(
                    self.results[j as int].dependent_structs@,
                ) && forall|k: int|
                    j < k < self.results.len() ==> (#[trigger] self.results[k]).name@ != name@,
                None => !self@.dom().contains(name@),
            },
    {
        let mut i: usize = self.results.len();
        while i > 0
            invariant
                i <= self.results.len(),
                forall|k: int|
                    i <= k < self.results.len() ==> (#[trigger] self.results[k]).name@ != name@,
            decreases i,
        {
            i -= 1;
            if same_text(self.results[i].name.as_str(), name) {
                proof {
                    lemma_as_map_last(self.results@, name@, i as int);
                }
                return Some(i);
            }
        }
        proof {
            lemma_as_map_absent(self.results@, name@);
        }
        None
    }

    /// Decides the requests to pass the types `requests` by value.
    ///
    /// The requests are granted together or not at all. They are granted
    /// when no type that is reached from a requested type through fields is
    /// offending; the verdicts then hold as passed by value exactly the
    /// names that are reached. Else the error names an offending type that is
    /// reached from a requested type: the first that a walk over the
    /// requests meets.
    pub fn classify(&self, requests: &Vec<TypeName>) -> (r: Result<Verdicts, String>)
        ensures
            match r {
                Ok(v) => refusal(self@, type_names(requests@)) is None && forall|n: Text|
                    #![trigger v@.contains(n)]
                    #![trigger reached(self@, type_names(requests@), n)]
                    {
                        &&& v@.contains(n) <==> reached(self@, type_names(requests@), n)
                        &&& v@.contains(n) ==> !offending(self@, n)
                    },
                Err(n) => refusal(self@, type_names(requests@)) == Some(n@) && reached(
                    self@,
                    type_names(requests@),
                    n@,
                ) && offending(self@, n@),
            },
    {
        let ghost g = self@;
        let ghost req = type_names(requests@);
        let mut worklist: Vec<String> = Vec::new();
        let mut i: usize = requests.len();
        while i > 0
            invariant
                i <= requests.len(),
                req == type_names(requests@),
                worklist.len() == requests.len() - i,
                forall|k: int|
                    0 <= k < worklist.len() ==> (#[trigger] worklist[k])@ == req[req.len() - 1 - k],
            decreases i,
        {
            i -= 1;
            worklist.push(requests[i].0.clone());
        }
        let mut marks: Vec<bool> = Vec::new();
        let mut j: usize = 0;
        while j < self.results.len()
            invariant
                j <= self.results.len(),
                marks.len() == j,
                forall|k: int| 0 <= k < j ==> !(#[trigger] marks[k]),
            decreases self.results.len() - j,
        {
            marks.push(false);
            j += 1;
        }
        let mut granted: Vec<String> = Vec::new();
        let ghost mut seen: Set<Text> = Set::empty();
        proof {
            lemma_as_map_finite(self.results@);
            assert(texts(worklist@).reverse() =~= req);
            assert(texts(granted@) =~= Seq::<Text>::empty());
            assert forall|n: Text| texts(worklist@).contains(n) implies reached(g, req, n) by {
                let k = choose|k: int| 0 <= k < texts(worklist@).len() && texts(worklist@)[k] == n;
                lemma_reaches_self(g, req[req.len() - 1 - k]);
            }
            assert forall|k: int| 0 <= k < req.len() implies texts(worklist@).contains(
                #[trigger] req[k],
            ) by {
                assert(texts(worklist@)[req.len() - 1 - k] == req[k]);
            }
        }
        while worklist.len() > 0
            invariant
                g == self@,
                g.dom().finite(),
                req == type_names(requests@),
                marks.len() == self.results.len(),
                all_reached(g, req, texts(worklist@)),
                all_reached(g, req, texts(granted@)),
                none_offending(g, texts(granted@)),
                closed_under_fields(g, req, texts(granted@), texts(worklist@)),
                refusal(g, req) == first_offending(g, texts(worklist@).reverse(), seen),
                forall|k: int|
                    0 <= k < marks.len() && #[trigger] marks[k] ==> texts(granted@).contains(
                        self.results[k].name@,
                    ) && seen.contains(self.results[k].name@) && forall|l: int|
                        k < l < marks.len() ==> (#[trigger] self.results[l]).name@
                            != self.results[k].name@,
                forall|n: Text|
                    seen.contains(n) ==> exists|k: int|
                        0 <= k < marks.len() && #[trigger] marks[k] && self.results[k].name@ == n,
            decreases unmarked(marks@), worklist.len(),
        {
            let ghost old_work = texts(worklist@);
            let ghost old_granted = texts(granted@);
            let ghost walk = old_work.reverse();
            let name = worklist.pop().unwrap();
            let ghost n = name@;
            proof {
                assert(old_work.last() == n);
                assert(walk.first() == n);
                assert(texts(worklist@) =~= old_work.drop_last());
                assert(texts(worklist@).reverse() =~= walk.drop_first());
                lemma_drop_last_contains(old_work);
                assert(old_work.contains(n));
                assert(reached(g, req, n));
            }
            match lookup(name.as_str()) {
                Some(details) => {
                    if !details.by_value_safe {
                        return Err(name);
                    }
                    granted.push(name);
                    proof {
                        assert(texts(granted@) =~= old_granted.push(n));
                        lemma_push_contains(old_granted, n);
                        lemma_closed_step(
                            g,
                            req,
                            old_granted,
                            old_work,
                            texts(granted@),
                            texts(worklist@),
                        );
                    }
                },
                None => {
                    match self.find(name.as_str()) {
                        None => {
                            return Err(name);
                        },
                        Some(at) => {
                            if marks[at] {
                                proof {
                                    lemma_closed_step(
                                        g,
                                        req,
                                        old_granted,
                                        old_work,
                                        old_granted,
                                        texts(worklist@),
                                    );
                                }
                            } else {
                                proof {
                                    lemma_mark(marks@, at as int);
                                    if seen.contains(n) {
                                        let k = choose|k: int|
                                            0 <= k < marks.len() && #[trigger] marks[k]
                                                && self.results[k].name@ == n;
                                        if k < at {
                                            assert(self.results[at as int].name@
                                                != self.results[k].name@);
                                        } else if at < k {
                                            assert(self.results[k].name@ != n);
                                        }
                                    }
                                    assert(!seen.contains(n));
                                }
                                let ghost old_marks = marks@;
                                let ghost old_seen = seen;
                                marks.set(at, true);
                                let fields = &self.results[at].dependent_structs;
                                let ghost mid_work = texts(worklist@);
                                let ghost fs = texts(fields@);
                                let mut f: usize = fields.len();
                                proof {
                                    assert(mid_work + fs.skip(fs.len() as int).reverse()
                                        =~= mid_work);
                                }
                                while f > 0
                                    invariant
                                        f <= fields.len(),
                                        fs == texts(fields@),
                                        texts(worklist@) == mid_work + fs.skip(f as int).reverse(),
                                    decreases f,
                                {
                                    f -= 1;
                                    let ghost w = worklist@;
                                    worklist.push(fields[f].clone());
                                    proof {
                                        assert(texts(worklist@) =~= texts(w).push(
                                            fields[f as int]@,
                                        ));
                                        assert(fs.skip(f as int).reverse() =~= fs.skip(
                                            f + 1,
                                        ).reverse().push(fields[f as int]@));
                                        assert(texts(worklist@) =~= mid_work + fs.skip(
                                            f as int,
                                        ).reverse());
                                    }
                                }
                                granted.push(name);
                                proof {
                                    assert(fs.skip(0) =~= fs);
                                    let new_work = texts(worklist@);
                                    assert(new_work == mid_work + fs.reverse());
                                    assert(new_work.reverse() =~= fs + walk.drop_first());
                                    assert(g[n] == fs);
                                    seen = seen.insert(n);
                                    assert(texts(granted@) =~= old_granted.push(n));
                                    lemma_push_contains(old_granted, n);
                                    lemma_add_contains(mid_work, fs.reverse());
                                    lemma_reverse_contains(fs);
                                    assert forall|x: Text| new_work.contains(x) implies reached(
                                        g,
                                        req,
                                        x,
                                    ) by {
                                        assert((mid_work + fs.reverse()).contains(x));
                                        assert(mid_work.contains(x) || fs.contains(x));
                                        if mid_work.contains(x) {
                                            assert(old_work.contains(x));
                                        } else {
                                            assert(expandable(g, n));
                                            assert(g[n].contains(x));
                                            let r = choose|r: int|
                                                0 <= r < req.len() && reaches(
                                                    g,
                                                    #[trigger] req[r],
                                                    n,
                                                );
                                            lemma_reaches_step(g, req[r], n, x);
                                        }
                                    }
                                    lemma_closed_step(
                                        g,
                                        req,
                                        old_granted,
                                        old_work,
                                        texts(granted@),
                                        new_work,
                                    );
                                    assert forall|m: Text| seen.contains(m) implies exists|k: int|
                                        0 <= k < marks.len() && #[trigger] marks[k]
                                            && self.results[k].name@ == m by {
                                        if m == n {
                                            assert(marks[at as int]);
                                        } else {
                                            assert(old_seen.contains(m));
                                            let k = choose|k: int|
                                                0 <= k < old_marks.len() && #[trigger] old_marks[k]
                                                    && self.results[k].name@ == m;
                                            assert(marks[k]);
                                        }
                                    }
                                }
                            }
                        },
                    }
                },
            }
        }
        proof {
            assert(texts(worklist@) =~= Seq::<Text>::empty());
            assert(texts(worklist@).reverse() =~= Seq::<Text>::empty());
            assert forall|n: Text| reached(g, req, n) implies texts(granted@).contains(n) by {
                lemma_reached_granted(g, req, texts(granted@), n);
            }
        }
        Ok(Verdicts { value_safe: granted })
    }
}

} // verus!
