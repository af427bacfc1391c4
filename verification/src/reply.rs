//! How a service classifies the outcome of a request.

use vstd::prelude::*;

verus! {

/// The classification that accompanies the message of every mutating request.
#[derive(Clone, Copy, Debug, PartialEq, Eq, Structural)]
pub enum Status {
    /// A record was created.
    Created,
    /// The request was carried out.
    Success,
    /// The key of a new record is already taken.
    Conflict,
    /// No record has the key.
    NotFound,
}

} // verus!
