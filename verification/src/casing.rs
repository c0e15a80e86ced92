//! Field-name casing.

use vstd::prelude::*;

verus! {

/// The lower camel case form of a name, as `heck` computes it: the name is cut
/// into words at characters that are neither letters nor digits and at changes
/// of case, the first word is lowercased, every later word is capitalized, and
/// the separators are left out.
pub uninterp spec fn lower_camel_case(name: Seq<char>) -> Seq<char>;

/// Calls `heck::ToLowerCamelCase::to_lower_camel_case` on `name`. The result
/// depends on the characters of `name` alone; nothing else is claimed of it.
#[verifier::external_body]
pub(crate) fn heck_lower_camel_case(name: &str) -> (out: String)
    ensures
        out@ == lower_camel_case(name@),
{
    heck::ToLowerCamelCase::to_lower_camel_case(name)
}

/// The name under which a column is stored in a document.
pub open spec fn field_name(name: Seq<char>, lower_camel: bool) -> Seq<char> {
    if lower_camel {
        lower_camel_case(name)
    } else {
        name
    }
}

/// Returns the name under which the column `name` is stored: its lower camel
/// case form if `lower_camel` is set, the name itself otherwise.
pub fn to_field_name(name: &str, lower_camel: bool) -> (out: String)
    ensures
        out@ == field_name(name@, lower_camel),
{
    if lower_camel {
        heck_lower_camel_case(name)
    } else {
        name.to_owned()
    }
}

} // verus!
