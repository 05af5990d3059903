use vstd::prelude::*;

verus! {

/// A correlation token chosen by the requesting agent. The router carries it
/// along without looking at it.
#[derive(Clone, Copy, Debug, PartialEq, Eq, Hash, Structural)]
pub struct RequestId(pub u64);

} // verus!
