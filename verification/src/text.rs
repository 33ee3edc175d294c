//! Operations on text that the rest of the crate needs, stated over sequences
//! of characters.
use vstd::prelude::*;

verus! {

/// The views of a sequence of strings, element by element.
pub open spec fn texts(v: Seq<String>) -> Seq<Seq<char>> {
    v.map_values(|s: String| s@)
}

/// The view of an optional string.
pub open spec fn opt_text(o: Option<String>) -> Option<Seq<char>> {
    match o {
        Some(s) => Some(s@),
        None => None,
    }
}

/// Whether two string slices hold the same characters.
pub fn same_text(a: &str, b: &str) -> (r: bool)
    ensures
        r == (a@ == b@),
{
    let n = a.unicode_len();
    if n != b.unicode_len() {
        return false;
    }
    let mut i: usize = 0;
    while i < n
        invariant
            n == a@.len(),
            n == b@.len(),
            i <= n,
            forall|k: int| 0 <= k < i ==> a@[k] == b@[k],
        decreases n - i,
    {
        if a.get_char(i) != b.get_char(i) {
            return false;
        }
        i += 1;
    }
    assert(a@ =~= b@);
    true
}

/// Whether `s` begins with the characters of `prefix`.
pub fn has_prefix(s: &str, prefix: &str) -> (r: bool)
    ensures
        r == prefix@.is_prefix_of(s@),
{
    let n = prefix.unicode_len();
    if n > s.unicode_len() {
        return false;
    }
    let head = s.substring_char(0, n);
    let r = same_text(head, prefix);
    assert(r == prefix@.is_prefix_of(s@)) by {
        if prefix@.is_prefix_of(s@) {
            assert(head@ =~= prefix@);
        }
    }
    r
}

/// The characters of `a` followed by those of `b`, as a new string.
pub fn join_pair(a: &str, b: &str) -> (r: String)
    ensures
        r@ == a@ + b@,
{
    let mut r = String::from_str(a);
    r.append(b);
    r
}

/// A copy of an optional string.
pub fn clone_opt_text(o: &Option<String>) -> (r: Option<String>)
    ensures
        opt_text(r) == opt_text(*o),
{
    match o {
        Some(s) => Some(s.clone()),
        None => None,
    }
}

/// A copy of a list of strings.
pub fn clone_texts(v: &Vec<String>) -> (r: Vec<String>)
    ensures
        texts(r@) == texts(v@),
{
    let mut out: Vec<String> = Vec::new();
    let mut i: usize = 0;
    while i < v.len()
        invariant
            i <= v.len(),
            out.len() == i,
            forall|k: int| 0 <= k < i ==> out[k]@ == v[k]@,
        decreases v.len() - i,
    {
        out.push(v[i].clone());
        i += 1;
    }
    assert(texts(out@) =~= texts(v@));
    out
}

/// Whether `needle` occurs among `list`.
pub fn contains_text(list: &Vec<String>, needle: &str) -> (r: bool)
    ensures
        r == texts(list@).contains(needle@),
{
    let mut i: usize = 0;
    while i < list.len()
        invariant
            i <= list.len(),
            forall|k: int| 0 <= k < i ==> list[k]@ != needle@,
        decreases list.len() - i,
    {
        if same_text(list[i].as_str(), needle) {
            assert(texts(list@)[i as int] == needle@);
            return true;
        }
        i += 1;
    }
    assert(!texts(list@).contains(needle@)) by {
        if texts(list@).contains(needle@) {
            let k = choose|k: int| 0 <= k < texts(list@).len() && texts(list@)[k] == needle@;
            assert(list[k]@ == needle@);
        }
    }
    false
}

/// The elements of `parts` with `sep` between each two neighbours.
pub open spec fn joined(parts: Seq<Seq<char>>, sep: Seq<char>) -> Seq<char> {
    if parts.len() == 0 {
        Seq::empty()
    } else {
        parts[0] + separated(parts.skip(1), sep)
    }
}

/// Each element of `rest` with `sep` before it.
pub open spec fn separated(rest: Seq<Seq<char>>, sep: Seq<char>) -> Seq<char>
    decreases rest.len(),
{
    if rest.len() == 0 {
        Seq::empty()
    } else {
        sep + rest[0] + separated(rest.skip(1), sep)
    }
}

/// Calls `Itertools::join` of the crate itertools on the strings of `parts`.
///
/// Believed without proof: the result is empty for no string; else it is the
/// first string, followed for each further string by `sep` and that string.
/// A string is written as its own characters.
#[verifier::external_body]
pub(crate) fn join_texts(parts: &Vec<String>, sep: &str) -> (r: String)
    ensures
        r@ == joined(texts(parts@), sep@),
{
    itertools::Itertools::join(&mut parts.iter(), sep)
}

} // verus!
