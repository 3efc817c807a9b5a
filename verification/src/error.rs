//! The error taxonomy of the service.

use vstd::prelude::*;

verus! {

/// Why an operation failed.
///
/// `InvalidURL` carries the parser's diagnostic for input that is not an
/// absolute URL; `NotFound` reports an unknown identifier; `InsertFailed`
/// reports that the store rejected a write, i.e. an identifier collision.
#[derive(Debug)]
pub enum ServiceError {
    InvalidURL(String),
    NotFound,
    InsertFailed,
}

} // verus!
