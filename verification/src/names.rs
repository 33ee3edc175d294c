//! Names of types and functions of the native interface.
use vstd::prelude::*;
use crate::syntax_model::Text;
use crate::text::{clone_texts, texts};

verus! {

/// The flat name of a type, as the low-level bindings spell it.
#[derive(Debug, Clone, PartialEq, Eq, Hash)]
pub struct TypeName(pub String);

impl View for TypeName {
    type V = Seq<char>;

    open spec fn view(&self) -> Seq<char> {
        self.0@
    }
}

/// The views of a sequence of type names, element by element.
pub open spec fn type_names(v: Seq<TypeName>) -> Seq<Seq<char>> {
    v.map_values(|n: TypeName| n@)
}

impl TypeName {
    /// The name made of the characters of `id`.
    pub fn new(id: &str) -> (r: Self)
        ensures
            r@ == id@,
    {
        TypeName(String::from_str(id))
    }

    /// The name that an identifier stands for: the identifier itself.
    pub fn from_ident(id: &String) -> (r: Self)
        ensures
            r@ == id@,
    {
        TypeName(id.clone())
    }

    /// The characters of the name.
    pub fn as_str(&self) -> (r: &str)
        ensures
            r@ == self@,
    {
        self.0.as_str()
    }

    /// A copy of the name.
    pub fn duplicate(&self) -> (r: Self)
        ensures
            r@ == self@,
    {
        TypeName(self.0.clone())
    }
}

/// The fully scoped name of a type or a function of the native interface:
/// the namespaces from the outermost inwards, then the name itself.
#[derive(Debug, Clone, PartialEq, Eq, Hash)]
pub struct QualifiedName {
    pub namespace: Vec<String>,
    pub name: String,
}

/// The model of a [`QualifiedName`].
pub struct SpecQualifiedName {
    pub namespace: Seq<Text>,
    pub name: Text,
}

impl View for QualifiedName {
    type V = SpecQualifiedName;

    open spec fn view(&self) -> SpecQualifiedName {
        SpecQualifiedName { namespace: texts(self.namespace@), name: self.name@ }
    }
}

/// The models of a sequence of qualified names.
pub open spec fn qualified_names(v: Seq<QualifiedName>) -> Seq<SpecQualifiedName> {
    v.map_values(|n: QualifiedName| n@)
}

/// The models of a sequence of borrowed qualified names.
pub open spec fn borrowed_names(v: Seq<&QualifiedName>) -> Seq<SpecQualifiedName> {
    v.map_values(|n: &QualifiedName| n@)
}

/// The text of the namespaces `ns`, each followed by `::`.
pub open spec fn scope_text(ns: Seq<Text>) -> Text
    decreases ns.len(),
{
    if ns.len() == 0 {
        Seq::empty()
    } else {
        scope_text(ns.drop_last()) + ns.last() + "::"@
    }
}

impl SpecQualifiedName {
    /// The name as it is written: `a::b::name`.
    pub open spec fn text(self) -> Text {
        scope_text(self.namespace) + self.name
    }
}

/// The written form of each name of a sequence.
pub open spec fn name_texts(names: Seq<SpecQualifiedName>) -> Seq<Text> {
    names.map_values(|n: SpecQualifiedName| n.text())
}

impl QualifiedName {
    /// The name `name` in the namespaces `namespace`.
    pub fn new(namespace: Vec<String>, name: String) -> (r: Self)
        ensures
            r.namespace == namespace,
            r.name == name,
    {
        QualifiedName { namespace, name }
    }

    /// A copy of the name.
    pub fn duplicate(&self) -> (r: Self)
        ensures
            r@ == self@,
    {
        QualifiedName { namespace: clone_texts(&self.namespace), name: self.name.clone() }
    }

    /// The name as it is written: `a::b::name`.
    pub fn to_text(&self) -> (r: String)
        ensures
            r@ == self@.text(),
    {
        let mut out = String::new();
        let mut i: usize = 0;
        proof {
            assert(texts(self.namespace@).take(0) =~= Seq::<Text>::empty());
        }
        while i < self.namespace.len()
            invariant
                i <= self.namespace.len(),
                out@ == scope_text(texts(self.namespace@).take(i as int)),
            decreases self.namespace.len() - i,
        {
            proof {
                let ns = texts(self.namespace@);
                assert(ns.take(i + 1).drop_last() =~= ns.take(i as int));
                assert(ns.take(i + 1).last() == self.namespace[i as int]@);
            }
            out.append(self.namespace[i].as_str());
            out.append("::");
            i += 1;
        }
        proof {
            let ns = texts(self.namespace@);
            assert(ns.take(ns.len() as int) =~= ns);
        }
        out.append(self.name.as_str());
        out
    }
}

} // verus!
