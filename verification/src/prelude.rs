//! Small items shared across the crate.

use vstd::prelude::*;

verus! {

/// A generic wrapper tuple struct for newtype patterns.
pub struct W<T>(pub T);

} // verus!
