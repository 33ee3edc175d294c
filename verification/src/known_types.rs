//! The registry of well-known native types: which of them may be passed by
//! value, and what the bridge calls them.
use vstd::prelude::*;
use crate::syntax_model::Text;
use crate::text::{opt_text, same_text};

verus! {

/// What the registry knows of a type.
#[derive(Debug, Clone, PartialEq, Eq)]
pub struct TypeDetails {
    /// Whether a value of the type may cross the bridge by value.
    pub by_value_safe: bool,
    /// The name that the bridge has for the type, where it differs.
    pub cxx_replacement: Option<String>,
}

/// The model of [`TypeDetails`].
pub struct SpecTypeDetails {
    pub by_value_safe: bool,
    pub cxx_replacement: Option<Text>,
}

impl View for TypeDetails {
    type V = SpecTypeDetails;

    open spec fn view(&self) -> SpecTypeDetails {
        SpecTypeDetails {
            by_value_safe: self.by_value_safe,
            cxx_replacement: opt_text(self.cxx_replacement),
        }
    }
}

/// Whether `name` is a primitive that both sides of the bridge share.
pub open spec fn is_primitive(name: Text) -> bool {
    ||| name == "bool"@
    ||| name == "i8"@
    ||| name == "i16"@
    ||| name == "i32"@
    ||| name == "i64"@
    ||| name == "u8"@
    ||| name == "u16"@
    ||| name == "u32"@
    ||| name == "u64"@
    ||| name == "f32"@
    ||| name == "f64"@
}

/// The registry as a function of the name: `None` for a name it does not
/// hold.
pub open spec fn known_type(name: Text) -> Option<SpecTypeDetails> {
    if name == "std_unique_ptr"@ {
        Some(SpecTypeDetails { by_value_safe: true, cxx_replacement: Some("UniquePtr"@) })
    } else if name == "std_string"@ {
        Some(SpecTypeDetails { by_value_safe: false, cxx_replacement: Some("CxxString"@) })
    } else if name == "std_vector"@ {
        Some(SpecTypeDetails { by_value_safe: false, cxx_replacement: Some("CxxVector"@) })
    } else if name == "UniquePtr"@ {
        Some(SpecTypeDetails { by_value_safe: true, cxx_replacement: None })
    } else if name == "CxxString"@ || name == "CxxVector"@ {
        Some(SpecTypeDetails { by_value_safe: false, cxx_replacement: None })
    } else if is_primitive(name) {
        Some(SpecTypeDetails { by_value_safe: true, cxx_replacement: None })
    } else {
        None
    }
}

/// The name that the bridge has for `name`: the registry's replacement where
/// it gives one, else `name` itself.
pub open spec fn bridge_name(name: Text) -> Text {
    match known_type(name) {
        Some(d) => match d.cxx_replacement {
            Some(r) => r,
            None => name,
        },
        None => name,
    }
}

/// Whether the registry holds `name` as a type that must stay behind a
/// pointer.
pub open spec fn known_unsafe(name: Text) -> bool {
    known_type(name) matches Some(d) && !d.by_value_safe
}

fn primitive(name: &str) -> (r: bool)
    ensures
        r == is_primitive(name@),
{
    same_text(name, "bool") || same_text(name, "i8") || same_text(name, "i16") || same_text(
        name,
        "i32",
    ) || same_text(name, "i64") || same_text(name, "u8") || same_text(name, "u16") || same_text(
        name,
        "u32",
    ) || same_text(name, "u64") || same_text(name, "f32") || same_text(name, "f64")
}

/// Looks `name` up in the registry.
pub fn lookup(name: &str) -> (r: Option<TypeDetails>)
    ensures
        match r {
            Some(d) => known_type(name@) == Some(d@),
            None => known_type(name@) is None,
        },
{
    if same_text(name, "std_unique_ptr") {
        Some(
            TypeDetails {
                by_value_safe: true,
                cxx_replacement: Some(String::from_str("UniquePtr")),
            },
        )
    } else if same_text(name, "std_string") {
        Some(
            TypeDetails {
                by_value_safe: false,
                cxx_replacement: Some(String::from_str("CxxString")),
            },
        )
    } else if same_text(name, "std_vector") {
        Some(
            TypeDetails {
                by_value_safe: false,
                cxx_replacement: Some(String::from_str("CxxVector")),
            },
        )
    } else if same_text(name, "UniquePtr") {
        Some(TypeDetails { by_value_safe: true, cxx_replacement: None })
    } else if same_text(name, "CxxString") || same_text(name, "CxxVector") {
        Some(TypeDetails { by_value_safe: false, cxx_replacement: None })
    } else if primitive(name) {
        Some(TypeDetails { by_value_safe: true, cxx_replacement: None })
    } else {
        None
    }
}

/// The bridge's name for `name`, as a new string.
pub fn replace_known(name: &str) -> (r: String)
    ensures
        r@ == bridge_name(name@),
{
    match lookup(name) {
        Some(d) => match d.cxx_replacement {
            Some(r) => r,
            None => String::from_str(name),
        },
        None => String::from_str(name),
    }
}

/// No replacement of the registry is itself replaced: the bridge's name of a
/// bridge's name is that name.
pub proof fn lemma_bridge_name_stable(name: Text)
    ensures
        bridge_name(bridge_name(name)) == bridge_name(name),
{
    reveal_strlit("std_unique_ptr");
    reveal_strlit("std_string");
    reveal_strlit("std_vector");
    reveal_strlit("UniquePtr");
    reveal_strlit("CxxString");
    reveal_strlit("CxxVector");
    let u = "UniquePtr"@;
    let s = "CxxString"@;
    let v = "CxxVector"@;
    assert(u[0] == 'U' && s[0] == 'C' && v[0] == 'C');
    assert("std_unique_ptr"@[0] == 's' && "std_string"@[0] == 's' && "std_vector"@[0] == 's');
    assert(known_type(u) matches Some(d) && d.cxx_replacement is None);
    assert(known_type(s) matches Some(d) && d.cxx_replacement is None);
    assert(known_type(v) matches Some(d) && d.cxx_replacement is None);
}

} // verus!
