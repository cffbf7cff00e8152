//! The error kinds a caller can see, and the HTTP status of each.

use vstd::prelude::*;

verus! {

/// The failures a caller can see.
///
/// A row that is absent and a row that belongs to someone else are both
/// reported as `NotFound`, so that a caller cannot probe for the existence of
/// other users' data.
#[derive(Clone, Copy, Debug, PartialEq, Eq, Structural)]
pub enum CrudError {
    NotFound,
    Conflict,
    InvalidInput,
    Unauthorized,
    InvalidParent,
    Internal,
}

pub open spec fn spec_status(e: CrudError) -> u16 {
    match e {
        CrudError::NotFound => 404,
        CrudError::Conflict => 409,
        CrudError::InvalidInput => 400,
        CrudError::Unauthorized => 401,
        CrudError::InvalidParent => 400,
        CrudError::Internal => 500,
    }
}

impl CrudError {
    /// The HTTP status that the transport layer answers with.
    pub fn status(&self) -> (r: u16)
        ensures
            r == spec_status(*self),
    {
        match self {
            CrudError::NotFound => 404,
            CrudError::Conflict => 409,
            CrudError::InvalidInput => 400,
            CrudError::Unauthorized => 401,
            CrudError::InvalidParent => 400,
            CrudError::Internal => 500,
        }
    }
}

} // verus!
