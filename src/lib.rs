//! Runtime data layer for a document-compilation engine: change-aware file
//! caching, a font registry, package resolution and page collection.

pub mod cell;
pub mod clock;
pub mod errors;
pub mod files;
pub mod fonts;
pub mod input;
pub mod package;
pub mod pages;
pub mod text;

use vstd::prelude::*;

verus! {

/// Adds two numbers.
pub fn add(left: usize, right: usize) -> (r: usize)
    requires
        left + right <= usize::MAX,
    ensures
        r == left + right,
{
    left + right
}

} // verus!
