use vstd::prelude::*;

verus! {

/// Placeholder for a missing name.
pub const UNNAMED: &'static str = "[unnamed]";

/// Placeholder for an entity that could not be resolved.
pub const UNKNOWN: &'static str = "[unknown]";

/// Placeholder for an unidentified person.
pub const SOMEONE: &'static str = "[someone]";

/// Characters of an optional string, if present.
pub open spec fn opt_chars(o: Option<String>) -> Option<Seq<char>> {
    match o {
        Some(s) => Some(s@),
        None => None,
    }
}

/// Characters of each string of a list.
pub open spec fn strings_chars(v: Seq<String>) -> Seq<Seq<char>> {
    v.map_values(|s: String| s@)
}

/// Whether two string slices hold the same characters.
pub fn str_eq(a: &str, b: &str) -> (r: bool)
    ensures
        r == (a@ == b@),
{
    let a1 = a.to_owned();
    let b1 = b.to_owned();
    a1 == b1
}

/// Whether two optional strings are both absent or both present with the same characters.
pub fn opt_string_eq(a: &Option<String>, b: &Option<String>) -> (r: bool)
    ensures
        r == (opt_chars(*a) == opt_chars(*b)),
{
    match (a, b) {
        (None, None) => true,
        (Some(x), Some(y)) => x.eq(y),
        _ => false,
    }
}

/// Whether two lists of strings hold the same strings in the same order.
pub fn strings_eq(a: &Vec<String>, b: &Vec<String>) -> (r: bool)
    ensures
        r == (strings_chars(a@) == strings_chars(b@)),
{
    if a.len() != b.len() {
        proof {
            assert(strings_chars(a@).len() != strings_chars(b@).len());
        }
        return false;
    }
    let mut i: usize = 0;
    while i < a.len()
        invariant
            a.len() == b.len(),
            0 <= i <= a.len(),
            forall|j: int| 0 <= j < i ==> a@[j]@ == b@[j]@,
        decreases a.len() - i,
    {
        if a[i] != b[i] {
            proof {
                assert(strings_chars(a@)[i as int] != strings_chars(b@)[i as int]);
            }
            return false;
        }
        i = i + 1;
    }
    assert(strings_chars(a@) =~= strings_chars(b@));
    true
}

/// The characters of the given name, or of the placeholder for a missing name.
pub open spec fn name_or_unnamed_spec(name_option: Option<Seq<char>>) -> Seq<char> {
    match name_option {
        Some(n) => n,
        None => UNNAMED@,
    }
}

pub fn name_or_unnamed(name_option: &Option<String>) -> (r: String)
    ensures
        r@ == name_or_unnamed_spec(opt_chars(*name_option)),
{
    match name_option {
        Some(n) => name_or_unnamed_str(Some(n.as_str())),
        None => name_or_unnamed_str(None),
    }
}

pub fn name_or_unnamed_str(name_option: Option<&str>) -> (r: String)
    ensures
        r@ == name_or_unnamed_spec(
            match name_option {
                Some(n) => Some(n@),
                None => None,
            },
        ),
{
    match name_option {
        Some(n) => n.to_owned(),
        None => UNNAMED.to_owned(),
    }
}

} // verus!
