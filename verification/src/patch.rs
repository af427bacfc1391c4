//! Sparse changes: for each field, either a new value or "leave as it is".

use vstd::prelude::*;

verus! {

/// A field after a sparse change: the new value where the change names one,
/// else the current value.
pub open spec fn overlay<A>(current: A, change: Option<A>) -> A {
    match change {
        Some(value) => value,
        None => current,
    }
}

/// What an optional string stands for.
pub open spec fn optional_text(field: Option<String>) -> Option<Seq<char>> {
    match field {
        Some(text) => Some(text@),
        None => None,
    }
}

/// Overwrites `field` where `change` names a value. Any string is taken,
/// the empty one too.
pub fn set_if_present(field: &mut String, change: Option<String>)
    ensures
        final(field)@ == overlay(old(field)@, optional_text(change)),
{
    match change {
        Some(text) => {
            *field = text;
        },
        None => {},
    }
}

} // verus!
