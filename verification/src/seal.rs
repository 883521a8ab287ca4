//! The marker that closes the set of types which may insert.

use vstd::prelude::*;

verus! {

/// Only this crate can name this trait, so only this crate can implement a
/// trait that is bounded by it.
pub trait Sealed {

}

} // verus!
