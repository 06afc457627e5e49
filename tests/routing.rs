use tcp_relay::libserver::{
    drops_connection, use_blob, use_management_message, BlobBody, BlobDestination, ClientInfo,
    OutgoingBlob, ServerUnpackBlobError, TryClientToOutblobsErr,
};
use tcp_relay::messages::{
    AssignOrUnassign, ClientState, ManagementMessage, SetMulticastRole, TopLevelMessage,
    UnicastAddress, MANAGEMENT_MAGIC, TOP_LEVEL_MAGIC,
};
use tcp_relay::pdu::{PDUReadErr, PDUReadOk, ReadOutcome};
use tcp_relay::registry::Registry;

fn assign_address(value: u64) -> ManagementMessage {
    let mut m = ManagementMessage::new();
    m.magic = Some(MANAGEMENT_MAGIC);
    m.assign_address = Some(UnicastAddress { value });
    m
}

fn role_change(role: u64, flag: AssignOrUnassign) -> ManagementMessage {
    let mut m = ManagementMessage::new();
    m.magic = Some(MANAGEMENT_MAGIC);
    m.set_multicast_role = Some(SetMulticastRole { role: Some(role), assign: Some(flag) });
    m
}

fn envelope(m: ManagementMessage) -> TopLevelMessage {
    let mut t = TopLevelMessage::new();
    t.magic = Some(TOP_LEVEL_MAGIC);
    t.management = Some(m);
    t
}

fn payload() -> TopLevelMessage {
    let mut t = TopLevelMessage::new();
    t.magic = Some(TOP_LEVEL_MAGIC);
    t.payload = Some(vec![1u8, 2, 3]);
    t
}

fn registry_of(n: usize) -> Registry {
    let mut reg = Registry::new();
    for _ in 0..n {
        reg.insert(ClientInfo::new());
    }
    reg
}

fn the_error(r: &Result<Option<Vec<OutgoingBlob>>, ServerUnpackBlobError>) -> ServerUnpackBlobError {
    match r {
        Err(e) => *e,
        Ok(_) => panic!("expected a reject"),
    }
}

#[test]
fn assign_address_is_broadcast_to_everyone_as_joined() {
    let mut reg = registry_of(3);
    let frame = vec![9u8, 9];
    let ds = reg.deliver(1, frame, Some(envelope(assign_address(42)))).unwrap();
    assert_eq!(ds.len(), 1);
    assert_eq!(ds[0].recipients, vec![0usize, 1, 2]);
    match &ds[0].blob {
        BlobBody::Notice(t) => {
            assert_eq!(t.magic, None);
            let m = t.management.unwrap();
            let info = m.info_other_client_state.unwrap();
            assert_eq!(info.addr, Some(UnicastAddress { value: 42 }));
            assert_eq!(info.state, Some(ClientState::Joined));
        }
        BlobBody::Relay(_) => panic!("expected a notice"),
    }
    assert_eq!(reg.client(1).self_assigned_addr, Some(UnicastAddress { value: 42 }));
    assert_eq!(reg.client(0).self_assigned_addr, None);
}

#[test]
fn multicast_reaches_only_subscribers() {
    let mut reg = registry_of(3);
    let ds = reg
        .deliver(0, vec![1u8], Some(envelope(role_change(7, AssignOrUnassign::Assign))))
        .unwrap();
    assert_eq!(ds[0].recipients, vec![0usize, 1, 2]);
    let mut t = payload();
    t.multicast_role = Some(7);
    let frame = vec![5u8, 6, 7];
    let ds = reg.deliver(1, frame.clone(), Some(t)).unwrap();
    assert_eq!(ds.len(), 1);
    assert_eq!(ds[0].recipients, vec![0usize]);
    match &ds[0].blob {
        BlobBody::Relay(b) => assert_eq!(b, &frame),
        BlobBody::Notice(_) => panic!("expected a relay"),
    }
    let mut t = payload();
    t.multicast_role = Some(8);
    let ds = reg.deliver(1, vec![1u8], Some(t)).unwrap();
    assert!(ds[0].recipients.is_empty());
}

#[test]
fn disconnect_after_two_header_bytes_is_end_of_stream() {
    let mut reg = registry_of(2);
    let r = reg.feed(1, ReadOutcome::Received(vec![97u8, 0]));
    assert!(matches!(r, Ok(PDUReadOk::NoPDU)));
    let r = reg.feed(1, ReadOutcome::EndOfStream);
    assert!(matches!(r, Err(PDUReadErr::GotEOF)));
    let e = TryClientToOutblobsErr::ReadErr(PDUReadErr::GotEOF);
    assert!(drops_connection(&e));
    reg.remove(1);
    assert_eq!(reg.len(), 1);
}

#[test]
fn role_assignment_is_idempotent_and_unassign_of_absent_role_is_accepted() {
    let mut info = ClientInfo::new();
    let r = use_management_message(&mut info, &role_change(3, AssignOrUnassign::Assign));
    assert!(matches!(r, Ok(Some(_))));
    let r = use_management_message(&mut info, &role_change(3, AssignOrUnassign::Assign));
    assert!(matches!(r, Ok(Some(_))));
    let r = use_management_message(&mut info, &role_change(4, AssignOrUnassign::Unassign));
    assert!(matches!(r, Ok(Some(_))));
    let mut reg = Registry::new();
    reg.insert(info);
    assert_eq!(reg.resolve(&BlobDestination::Multicast(3)), vec![0usize]);
    assert!(reg.resolve(&BlobDestination::Multicast(4)).is_empty());
    let mut reg2 = Registry::new();
    let mut info = ClientInfo::new();
    use_management_message(&mut info, &role_change(3, AssignOrUnassign::Assign)).unwrap();
    use_management_message(&mut info, &role_change(3, AssignOrUnassign::Unassign)).unwrap();
    reg2.insert(info);
    assert!(reg2.resolve(&BlobDestination::Multicast(3)).is_empty());
}

#[test]
fn role_change_is_rebroadcast_as_is() {
    let mut info = ClientInfo::new();
    let m = role_change(5, AssignOrUnassign::Assign);
    let blobs = use_management_message(&mut info, &m).unwrap().unwrap();
    assert_eq!(blobs.len(), 1);
    assert_eq!(blobs[0].dest, BlobDestination::Broadcast);
    match &blobs[0].blob {
        BlobBody::Notice(t) => assert_eq!(t.management, Some(m)),
        BlobBody::Relay(_) => panic!("expected a notice"),
    }
}

#[test]
fn destination_resolution() {
    let mut reg = registry_of(4);
    reg.deliver(1, vec![0u8], Some(envelope(assign_address(9)))).unwrap();
    reg.deliver(3, vec![0u8], Some(envelope(assign_address(9)))).unwrap();
    reg.deliver(2, vec![0u8], Some(envelope(role_change(1, AssignOrUnassign::Assign)))).unwrap();
    assert_eq!(reg.resolve(&BlobDestination::Broadcast), vec![0usize, 1, 2, 3]);
    assert_eq!(reg.resolve(&BlobDestination::Multicast(1)), vec![2usize]);
    assert_eq!(reg.resolve(&BlobDestination::Unicast(UnicastAddress { value: 9 })), vec![1usize]);
    assert!(reg.resolve(&BlobDestination::Unicast(UnicastAddress { value: 10 })).is_empty());
    assert!(Registry::new().resolve(&BlobDestination::Broadcast).is_empty());
}

#[test]
fn unicast_payload_goes_to_the_claimant() {
    let mut reg = registry_of(3);
    reg.deliver(2, vec![0u8], Some(envelope(assign_address(77)))).unwrap();
    let mut t = payload();
    t.unicast = Some(UnicastAddress { value: 77 });
    let ds = reg.deliver(0, vec![4u8, 4], Some(t)).unwrap();
    assert_eq!(ds[0].recipients, vec![2usize]);
}

#[test]
fn broadcast_flag_takes_precedence() {
    let mut info = ClientInfo::new();
    let mut t = payload();
    t.broadcast = Some(true);
    t.multicast_role = Some(2);
    let blobs = use_blob(&mut info, vec![3u8], Some(t)).unwrap().unwrap();
    assert_eq!(blobs[0].dest, BlobDestination::Broadcast);
}

#[test]
fn each_reject_reason() {
    let mut info = ClientInfo::new();
    assert_eq!(the_error(&use_blob(&mut info, vec![0u8], None)), ServerUnpackBlobError::BadProtoBlob);

    let mut t = envelope(assign_address(1));
    t.magic = Some(1);
    assert_eq!(the_error(&use_blob(&mut info, vec![0u8], Some(t))), ServerUnpackBlobError::InvalidMagic);

    let mut t = envelope(assign_address(1));
    t.magic = None;
    assert_eq!(the_error(&use_blob(&mut info, vec![0u8], Some(t))), ServerUnpackBlobError::InvalidMagic);

    let mut m = assign_address(1);
    m.magic = Some(2);
    assert_eq!(
        the_error(&use_blob(&mut info, vec![0u8], Some(envelope(m)))),
        ServerUnpackBlobError::InvalidManagementMagic
    );

    let mut m = role_change(1, AssignOrUnassign::Assign);
    m.set_multicast_role = Some(SetMulticastRole { role: None, assign: Some(AssignOrUnassign::Assign) });
    assert_eq!(
        the_error(&use_blob(&mut info, vec![0u8], Some(envelope(m)))),
        ServerUnpackBlobError::MissingFields
    );
    let mut m = role_change(1, AssignOrUnassign::Assign);
    m.set_multicast_role = Some(SetMulticastRole { role: Some(1), assign: None });
    assert_eq!(
        the_error(&use_blob(&mut info, vec![0u8], Some(envelope(m)))),
        ServerUnpackBlobError::MissingFields
    );

    let mut m = ManagementMessage::new();
    m.magic = Some(MANAGEMENT_MAGIC);
    assert_eq!(
        the_error(&use_blob(&mut info, vec![0u8], Some(envelope(m)))),
        ServerUnpackBlobError::Unimplemented
    );

    assert_eq!(
        the_error(&use_blob(&mut info, vec![0u8], Some(payload()))),
        ServerUnpackBlobError::Unimplemented
    );

    let mut t = TopLevelMessage::new();
    t.magic = Some(TOP_LEVEL_MAGIC);
    assert_eq!(the_error(&use_blob(&mut info, vec![0u8], Some(t))), ServerUnpackBlobError::Unimplemented);

    assert_eq!(info.self_assigned_addr, None);
    let e = TryClientToOutblobsErr::InvalidDataErr(ServerUnpackBlobError::MissingFields);
    assert!(!drops_connection(&e));
}

#[test]
fn rejected_frame_changes_nothing_in_the_registry() {
    let mut reg = registry_of(2);
    let mut m = assign_address(5);
    m.magic = None;
    let r = reg.deliver(0, vec![0u8], Some(envelope(m)));
    assert!(matches!(r, Err(ServerUnpackBlobError::InvalidManagementMagic)));
    assert_eq!(reg.client(0).self_assigned_addr, None);
    assert!(reg.resolve(&BlobDestination::Unicast(UnicastAddress { value: 5 })).is_empty());
}
