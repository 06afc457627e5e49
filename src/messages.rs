//! The decoded envelope: the fields of a top-level message that the relay
//! inspects. Turning bytes into these values and back is the message
//! codec's work, outside this crate.
use vstd::prelude::*;

verus! {

/// The sentinel carried by every top-level envelope.
pub const TOP_LEVEL_MAGIC: u32 = 21093159;

/// The sentinel carried by every management message.
pub const MANAGEMENT_MAGIC: u32 = 4258764624;

/// An address a client claims for itself, used for unicast delivery.
#[derive(Clone, Copy, Debug, PartialEq, Eq, Structural)]
pub struct UnicastAddress {
    pub value: u64,
}

#[derive(Clone, Copy, Debug, PartialEq, Eq, Structural)]
pub enum AssignOrUnassign {
    Assign,
    Unassign,
}

#[derive(Clone, Copy, Debug, PartialEq, Eq, Structural)]
pub enum ClientState {
    Joined,
}

/// Subscribe to, or leave, a multicast role.
#[derive(Clone, Copy, Debug, PartialEq, Eq, Structural)]
pub struct SetMulticastRole {
    pub role: Option<u64>,
    pub assign: Option<AssignOrUnassign>,
}

/// A notice about another client's state.
#[derive(Clone, Copy, Debug, PartialEq, Eq, Structural)]
pub struct OtherClientStateMessage {
    pub addr: Option<UnicastAddress>,
    pub state: Option<ClientState>,
}

#[derive(Clone, Copy, Debug, PartialEq, Eq, Structural)]
pub struct ManagementMessage {
    pub magic: Option<u32>,
    pub assign_address: Option<UnicastAddress>,
    pub set_multicast_role: Option<SetMulticastRole>,
    pub info_other_client_state: Option<OtherClientStateMessage>,
}

/// A top-level envelope: either a management message or an opaque
/// application payload with its destination selector.
#[derive(Debug)]
pub struct TopLevelMessage {
    pub magic: Option<u32>,
    pub management: Option<ManagementMessage>,
    pub payload: Option<Vec<u8>>,
    pub broadcast: Option<bool>,
    pub multicast_role: Option<u64>,
    pub unicast: Option<UnicastAddress>,
}

impl ManagementMessage {
    /// A management message with no field set.
    pub fn new() -> (r: ManagementMessage)
        ensures
            r == empty_management(),
    {
        ManagementMessage {
            magic: None,
            assign_address: None,
            set_multicast_role: None,
            info_other_client_state: None,
        }
    }
}

impl TopLevelMessage {
    /// A top-level envelope with no field set.
    pub fn new() -> (r: TopLevelMessage)
        ensures
            r == empty_top_level(),
    {
        TopLevelMessage {
            magic: None,
            management: None,
            payload: None,
            broadcast: None,
            multicast_role: None,
            unicast: None,
        }
    }
}

pub open spec fn empty_management() -> ManagementMessage {
    ManagementMessage {
        magic: None,
        assign_address: None,
        set_multicast_role: None,
        info_other_client_state: None,
    }
}

pub open spec fn empty_top_level() -> TopLevelMessage {
    TopLevelMessage {
        magic: None,
        management: None,
        payload: None,
        broadcast: None,
        multicast_role: None,
        unicast: None,
    }
}

/// A top-level envelope that carries only the given management message.
pub open spec fn wrap_management(m: ManagementMessage) -> TopLevelMessage {
    TopLevelMessage { management: Some(m), ..empty_top_level() }
}

/// The broadcast notice that a client has joined under address `a`.
pub open spec fn joined_notice(a: UnicastAddress) -> TopLevelMessage {
    wrap_management(
        ManagementMessage {
            info_other_client_state: Some(
                OtherClientStateMessage { addr: Some(a), state: Some(ClientState::Joined) },
            ),
            ..empty_management()
        },
    )
}

} // verus!
