use vstd::prelude::*;

verus! {

/// The address of an agent. Identity `0` is the router's own control address.
#[derive(Clone, Copy, Debug, PartialEq, Eq, Hash, Structural)]
pub struct AgentId(pub u32);

impl AgentId {
    /// The control address that handshake frames are sent to.
    pub open spec fn router() -> AgentId {
        AgentId(0)
    }

    /// Whether this is the router's control address.
    pub fn is_router(&self) -> (r: bool)
        ensures
            r == (*self == AgentId::router()),
    {
        self.0 == 0
    }
}

} // verus!
