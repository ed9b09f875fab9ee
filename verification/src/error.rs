//! The library's top-level error.

use vstd::prelude::*;
use crate::catalog::CatalogError;

verus! {

/// Errors of the library as a whole; parsers add their own as variants.
#[derive(Debug)]
#[non_exhaustive]
pub enum ReliquaintError {
    Catalog(CatalogError),
}

impl ReliquaintError {
    pub fn from_catalog(e: CatalogError) -> (r: ReliquaintError)
        ensures
            r == ReliquaintError::Catalog(e),
    {
        ReliquaintError::Catalog(e)
    }
}

} // verus!
