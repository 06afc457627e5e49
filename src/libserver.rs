//! Interpretation of decoded envelopes: management messages change the
//! sender's state, payloads are relayed; each accepted message yields the
//! blobs to send and where to send them.
use crate::messages::{
    joined_notice, wrap_management, AssignOrUnassign, ClientState,
    ManagementMessage, OtherClientStateMessage, SetMulticastRole, TopLevelMessage, UnicastAddress, MANAGEMENT_MAGIC,
    TOP_LEVEL_MAGIC,
};
use crate::pdu::{FrameReader, PDUReadErr};
use crate::roles::{empty_roles, insert_role, remove_role, roles_of, RoleSet};
use vstd::prelude::*;

verus! {

/// Where an outgoing blob goes.
#[derive(Clone, Copy, Debug, PartialEq, Eq, Structural)]
pub enum BlobDestination {
    /// Every live connection.
    Broadcast,
    /// Every connection subscribed to the role.
    Multicast(u64),
    /// The connection that claimed the address, if any.
    Unicast(UnicastAddress),
}

/// What an outgoing blob carries.
#[derive(Debug)]
pub enum BlobBody {
    /// The bytes of a received frame, passed on as they came.
    Relay(Vec<u8>),
    /// An envelope of the relay's own, to be encoded before sending.
    Notice(TopLevelMessage),
}

#[derive(Debug)]
pub struct OutgoingBlob {
    pub blob: BlobBody,
    pub dest: BlobDestination,
}

/// Why a decoded frame was rejected. A rejected message changes no state.
#[derive(Debug, Clone, Copy, PartialEq, Eq, Structural)]
pub enum ServerUnpackBlobError {
    /// The frame did not decode as an envelope.
    BadProtoBlob,
    /// The top-level magic is missing or wrong.
    InvalidMagic,
    /// The management magic is missing or wrong.
    InvalidManagementMagic,
    /// A role change lacks its role or its assign/unassign flag.
    MissingFields,
    /// A shape of message that the relay does not handle.
    Unimplemented,
}

/// Why a connection produced no blobs this tick.
#[derive(Debug)]
pub enum TryClientToOutblobsErr {
    InvalidDataErr(ServerUnpackBlobError),
    ReadErr(PDUReadErr),
}

pub type ServerBlobResult<T> = Result<Option<Vec<OutgoingBlob>>, T>;

/// The routing state of one connection.
pub struct ClientInfo {
    pub self_assigned_addr: Option<UnicastAddress>,
    pub current_roles: RoleSet,
    pub reader: FrameReader,
}

impl ClientInfo {
    /// A fresh connection: no address, no roles, nothing buffered.
    pub fn new() -> (r: ClientInfo)
        ensures
            r.self_assigned_addr is None,
            roles_of(r.current_roles) == Set::<u64>::empty(),
            r.reader@ == Seq::<u8>::empty(),
    {
        ClientInfo {
            self_assigned_addr: None,
            current_roles: empty_roles(),
            reader: FrameReader::new(),
        }
    }
}

/// The reject reason of a management message, if it is rejected.
pub open spec fn management_error(msg: ManagementMessage) -> Option<ServerUnpackBlobError> {
    if msg.magic != Some(MANAGEMENT_MAGIC) {
        Some(ServerUnpackBlobError::InvalidManagementMagic)
    } else if msg.assign_address is Some {
        None
    } else {
        match msg.set_multicast_role {
            Some(m) => if m.role is None || m.assign is None {
                Some(ServerUnpackBlobError::MissingFields)
            } else {
                None
            },
            None => Some(ServerUnpackBlobError::Unimplemented),
        }
    }
}

/// The sender's roles after an accepted management message.
pub open spec fn roles_after(roles: Set<u64>, msg: ManagementMessage) -> Set<u64> {
    if msg.assign_address is Some {
        roles
    } else {
        match msg.set_multicast_role {
            Some(m) => match (m.role, m.assign) {
                (Some(r), Some(AssignOrUnassign::Assign)) => roles.insert(r),
                (Some(r), Some(AssignOrUnassign::Unassign)) => roles.remove(r),
                _ => roles,
            },
            None => roles,
        }
    }
}

/// The sender's address after an accepted management message.
pub open spec fn addr_after(addr: Option<UnicastAddress>, msg: ManagementMessage) -> Option<
    UnicastAddress,
> {
    match msg.assign_address {
        Some(a) => Some(a),
        None => addr,
    }
}

/// The envelope broadcast for an accepted management message: a "joined"
/// notice for an address claim, the message itself for a role change.
pub open spec fn management_reply(msg: ManagementMessage) -> TopLevelMessage {
    match msg.assign_address {
        Some(a) => joined_notice(a),
        None => wrap_management(msg),
    }
}

/// A broadcast of an envelope of the relay's own.
pub open spec fn notice_blob(t: TopLevelMessage) -> OutgoingBlob {
    OutgoingBlob { blob: BlobBody::Notice(t), dest: BlobDestination::Broadcast }
}

/// Applies a management message from the sender: claims an address or
/// changes a role, and yields the one broadcast blob that tells the peers.
/// On a reject the sender's state stays as it was.
pub fn use_management_message(sender_info: &mut ClientInfo, msg: &ManagementMessage) -> (r:
    ServerBlobResult<ServerUnpackBlobError>)
    ensures
        management_error(*msg) is Some ==> (r matches Err(e) && Some(e) == management_error(*msg)
            && *final(sender_info) == *old(sender_info)),
        management_error(*msg) is None ==> (r matches Ok(Some(v)) && v@ == seq![
            notice_blob(management_reply(*msg)),
        ]),
        management_error(*msg) is None ==> final(sender_info).self_assigned_addr == addr_after(
            old(sender_info).self_assigned_addr,
            *msg,
        ) && roles_of(final(sender_info).current_roles) == roles_after(
            roles_of(old(sender_info).current_roles),
            *msg,
        ) && final(sender_info).reader == old(sender_info).reader,
{
    let magic_ok = match msg.magic {
        Some(m) => m == MANAGEMENT_MAGIC,
        None => false,
    };
    if !magic_ok {
        return Err(ServerUnpackBlobError::InvalidManagementMagic);
    }
    match msg.assign_address {
        Some(addr) => {
            sender_info.self_assigned_addr = Some(addr);
            let mut management_msg = ManagementMessage::new();
            management_msg.info_other_client_state = Some(
                OtherClientStateMessage { addr: Some(addr), state: Some(ClientState::Joined) },
            );
            let mut notification = TopLevelMessage::new();
            notification.management = Some(management_msg);
            Ok(
                Some(
                    vec![OutgoingBlob { blob: BlobBody::Notice(notification), dest: BlobDestination::Broadcast }],
                ),
            )
        },
        None => match msg.set_multicast_role {
            Some(mcast) => match (mcast.role, mcast.assign) {
                (Some(role), Some(assign)) => {
                    match assign {
                        AssignOrUnassign::Assign => {
                            insert_role(&mut sender_info.current_roles, role);
                        },
                        AssignOrUnassign::Unassign => {
                            remove_role(&mut sender_info.current_roles, role);
                        },
                    }
                    let mut tlm = TopLevelMessage::new();
                    tlm.management = Some(*msg);
                    Ok(
                        Some(
                            vec![OutgoingBlob { blob: BlobBody::Notice(tlm), dest: BlobDestination::Broadcast }],
                        ),
                    )
                },
                _ => Err(ServerUnpackBlobError::MissingFields),
            },
            None => Err(ServerUnpackBlobError::Unimplemented),
        },
    }
}

/// The destination a payload envelope selects, in order of precedence:
/// broadcast flag, multicast role, unicast address.
pub open spec fn payload_dest(t: TopLevelMessage) -> Option<BlobDestination> {
    if t.broadcast is Some {
        Some(BlobDestination::Broadcast)
    } else {
        match t.multicast_role {
            Some(r) => Some(BlobDestination::Multicast(r)),
            None => match t.unicast {
                Some(a) => Some(BlobDestination::Unicast(a)),
                None => None,
            },
        }
    }
}

/// The reject reason of a frame, given what it decoded to (`None`: it did
/// not decode), if it is rejected.
pub open spec fn blob_error(decoded: Option<TopLevelMessage>) -> Option<ServerUnpackBlobError> {
    match decoded {
        None => Some(ServerUnpackBlobError::BadProtoBlob),
        Some(t) => if t.magic != Some(TOP_LEVEL_MAGIC) {
            Some(ServerUnpackBlobError::InvalidMagic)
        } else {
            match t.management {
                Some(m) => management_error(m),
                None => if t.payload is Some && payload_dest(t) is Some {
                    None
                } else {
                    Some(ServerUnpackBlobError::Unimplemented)
                },
            }
        },
    }
}

/// The blobs that an accepted frame yields.
pub open spec fn expected_blobs(blob: Vec<u8>, decoded: Option<TopLevelMessage>) -> Seq<
    OutgoingBlob,
> {
    let t = decoded.unwrap();
    match t.management {
        Some(m) => seq![notice_blob(management_reply(m))],
        None => seq![relay_blob(blob, payload_dest(t).unwrap())],
    }
}

/// A relay of a received frame's bytes.
pub open spec fn relay_blob(blob: Vec<u8>, dest: BlobDestination) -> OutgoingBlob {
    OutgoingBlob { blob: BlobBody::Relay(blob), dest }
}

/// How an accepted frame changes its sender: a management message claims
/// an address or changes a role; a payload changes nothing.
pub open spec fn sender_updated(
    before: ClientInfo,
    after: ClientInfo,
    decoded: Option<TopLevelMessage>,
) -> bool {
    match decoded.unwrap().management {
        Some(m) => {
            &&& after.self_assigned_addr == addr_after(before.self_assigned_addr, m)
            &&& roles_of(after.current_roles) == roles_after(roles_of(before.current_roles), m)
            &&& after.reader == before.reader
        },
        None => after == before,
    }
}

/// Interprets one frame from the sender, given the frame's bytes and what
/// they decoded to (`None` where decoding failed). A management message is
/// applied to the sender (see `use_management_message`); a payload is
/// relayed as the original bytes to the destination it selects. On a reject
/// the sender's state stays as it was.
pub fn use_blob(sender_info: &mut ClientInfo, blob: Vec<u8>, decoded: Option<TopLevelMessage>) -> (r:
    ServerBlobResult<ServerUnpackBlobError>)
    ensures
        blob_error(decoded) is Some ==> (r matches Err(e) && Some(e) == blob_error(decoded)
            && *final(sender_info) == *old(sender_info)),
        blob_error(decoded) is None ==> (r matches Ok(Some(v)) && v@ == expected_blobs(
            blob,
            decoded,
        )),
        blob_error(decoded) is None ==> sender_updated(*old(sender_info), *final(sender_info), decoded),
{
    let tlm = match decoded {
        Some(t) => t,
        None => {
            return Err(ServerUnpackBlobError::BadProtoBlob);
        },
    };
    let magic_ok = match tlm.magic {
        Some(m) => m == TOP_LEVEL_MAGIC,
        None => false,
    };
    if !magic_ok {
        return Err(ServerUnpackBlobError::InvalidMagic);
    }
    match tlm.management {
        Some(m) => use_management_message(sender_info, &m),
        None => {
            if tlm.payload.is_none() {
                return Err(ServerUnpackBlobError::Unimplemented);
            }
            let dest = if tlm.broadcast.is_some() {
                BlobDestination::Broadcast
            } else {
                match tlm.multicast_role {
                    Some(role) => BlobDestination::Multicast(role),
                    None => match tlm.unicast {
                        Some(addr) => BlobDestination::Unicast(addr),
                        None => {
                            return Err(ServerUnpackBlobError::Unimplemented);
                        },
                    },
                }
            };
            Ok(Some(vec![OutgoingBlob { blob: BlobBody::Relay(blob), dest }]))
        },
    }
}

/// The relay's policy on failures: a framing error ends the connection,
/// since the stream can no longer be aligned; a rejected message is dropped
/// and the connection kept, so that the sender may recover.
pub fn drops_connection(e: &TryClientToOutblobsErr) -> (r: bool)
    ensures
        r == (*e is ReadErr),
{
    match e {
        TryClientToOutblobsErr::ReadErr(_) => true,
        TryClientToOutblobsErr::InvalidDataErr(_) => false,
    }
}

/// Whether `msg` is a well-formed request to assign (or unassign) `role`.
pub open spec fn is_role_change(msg: ManagementMessage, role: u64, flag: AssignOrUnassign) -> bool {
    &&& msg.magic == Some(MANAGEMENT_MAGIC)
    &&& msg.assign_address is None
    &&& msg.set_multicast_role == Some(SetMulticastRole { role: Some(role), assign: Some(flag) })
}

/// Roles behave as a set: assigning a role a second time leaves the roles
/// as the first assignment left them, and unassigning a role that is not
/// held is accepted and changes nothing.
pub proof fn lemma_role_idempotence(
    roles: Set<u64>,
    role: u64,
    assign: ManagementMessage,
    unassign: ManagementMessage,
)
    requires
        is_role_change(assign, role, AssignOrUnassign::Assign),
        is_role_change(unassign, role, AssignOrUnassign::Unassign),
    ensures
        management_error(assign) is None,
        roles_after(roles_after(roles, assign), assign) == roles_after(roles, assign),
        management_error(unassign) is None,
        !roles.contains(role) ==> roles_after(roles, unassign) == roles,
{
    assert(roles.insert(role).insert(role) =~= roles.insert(role));
    if !roles.contains(role) {
        assert(roles.remove(role) =~= roles);
    }
}

} // verus!
