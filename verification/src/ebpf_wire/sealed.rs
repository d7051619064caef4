//! The seal of the set of wire records.

use vstd::prelude::*;

verus! {

/// Supertrait of the wire records. It is private to the wire module, so that no
/// other crate can add to the set of types that are read from raw bytes.
pub trait Sealed {

}

} // verus!
