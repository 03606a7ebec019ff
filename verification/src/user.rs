use vstd::prelude::*;

verus! {

/// A user's identifier.
#[derive(Clone, Debug, PartialEq, Eq, Structural)]
pub struct Id(pub u64);

} // verus!
