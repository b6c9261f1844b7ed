use gnumach::ipc_kmsg::{ipc_kmsg_copyin_header, ipc_object_copyin_type};
use gnumach::ipc_right::{ipc_mqueue, ipc_entry, ipc_port, ipc_space, mach_port_names, IpcAction};
use gnumach::mach_types::{
    mach_msg_header_t, MACH_MSGH_BITS, MACH_MSG_SUCCESS, MACH_MSG_TYPE_COPY_SEND, MACH_MSG_TYPE_MAKE_SEND_ONCE,
    MACH_MSG_TYPE_MOVE_RECEIVE, MACH_MSG_TYPE_MOVE_SEND, MACH_MSG_TYPE_MOVE_SEND_ONCE, MACH_MSG_TYPE_PORT_RECEIVE,
    MACH_MSG_TYPE_PORT_SEND, MACH_MSG_TYPE_PORT_SEND_ONCE, MACH_PORT_TYPE_DEAD_NAME, MACH_PORT_TYPE_RECEIVE,
    MACH_PORT_TYPE_SEND, MACH_PORT_TYPE_SEND_ONCE, MACH_SEND_INVALID_DEST, MACH_SEND_INVALID_HEADER,
    MACH_SEND_INVALID_NOTIFY, MACH_SEND_INVALID_REPLY, KERN_INVALID_TASK,
};

fn port(references: u32, srights: u32) -> ipc_port {
    ipc_port {
        ip_active: true,
        ip_references: references,
        ip_srights: srights,
        ip_sorights: 0,
        ip_mscount: 0,
        ip_receiver_name: 0,
        ip_receiver: 0,
        ip_destination: 0,
        ip_nsrequest: 0,
        ip_pdrequest: 0,
        ip_protected_payload: false,
        ip_payload: 0,
        ip_timestamp: 0,
        ip_dnrequests: Vec::new(),
        ip_kotype: 0,
        ip_pset: 0,
        ip_msgcount: 0,
        ip_qlimit: 5,
        ip_seqno: 0,
        ip_blocked: Vec::new(),
        ip_messages: ipc_mqueue { imq_messages: Vec::new(), imq_threads: Vec::new() },
    }
}

/// Entry 0: name 0x10, two send rights to port 1.  Entry 1: name 0x20,
/// receive right of port 2.  Entry 2: name 0x30, a send-once right to port 3.
fn setup() -> (ipc_space, Vec<ipc_port>) {
    let space = ipc_space {
        is_active: true,
        is_id: 9,
        is_entries: vec![
            ipc_entry { ie_name: 0x10, ie_bits: MACH_PORT_TYPE_SEND | 2, ie_object: 1, ie_request: 0 },
            ipc_entry { ie_name: 0x20, ie_bits: MACH_PORT_TYPE_RECEIVE, ie_object: 2, ie_request: 0 },
            ipc_entry { ie_name: 0x30, ie_bits: MACH_PORT_TYPE_SEND_ONCE | 1, ie_object: 3, ie_request: 0 },
        ],
    };
    let mut p2 = port(1, 0);
    p2.ip_receiver_name = 0x20;
    p2.ip_receiver = 9;
    let mut p3 = port(1, 0);
    p3.ip_sorights = 1;
    (space, vec![port(1, 0), port(1, 1), p2, p3])
}

fn header(remote_type: u32, local_type: u32, remote: u32, local: u32) -> mach_msg_header_t {
    mach_msg_header_t {
        msgh_bits: MACH_MSGH_BITS(remote_type, local_type),
        msgh_size: 24,
        msgh_remote_port: remote,
        msgh_local_port: local,
        msgh_seqno: 0,
        msgh_id: 1000,
    }
}

#[test]
fn test_copyin_header_plain_send() {
    let (mut space, mut ports) = setup();
    let mut acts: Vec<IpcAction> = Vec::new();
    let mut msg = header(MACH_MSG_TYPE_COPY_SEND, 0, 0x10, 0);
    assert_eq!(ipc_kmsg_copyin_header(&mut msg, &mut space, &mut ports, &mut acts, 0), MACH_MSG_SUCCESS);
    assert_eq!(msg.msgh_bits, MACH_MSGH_BITS(MACH_MSG_TYPE_PORT_SEND, 0));
    assert_eq!(msg.msgh_remote_port, 1);
    assert_eq!(msg.msgh_local_port, 0);
    assert_eq!(msg.msgh_id, 1000);
    assert_eq!(ports[1].ip_srights, 2);
    assert_eq!(ports[1].ip_references, 2);
    assert_eq!(space.is_entries[0].ie_bits, MACH_PORT_TYPE_SEND | 2);
    assert!(acts.is_empty());
}

#[test]
fn test_copyin_header_request_with_reply() {
    let (mut space, mut ports) = setup();
    let mut acts: Vec<IpcAction> = Vec::new();
    let mut msg = header(MACH_MSG_TYPE_COPY_SEND, MACH_MSG_TYPE_MAKE_SEND_ONCE, 0x10, 0x20);
    msg.msgh_bits |= 0x8000_0000;
    assert_eq!(ipc_kmsg_copyin_header(&mut msg, &mut space, &mut ports, &mut acts, 0), MACH_MSG_SUCCESS);
    assert_eq!(msg.msgh_bits, 0x8000_0000 | MACH_MSGH_BITS(MACH_MSG_TYPE_PORT_SEND, MACH_MSG_TYPE_PORT_SEND_ONCE));
    assert_eq!(msg.msgh_remote_port, 1);
    assert_eq!(msg.msgh_local_port, 2);
    assert_eq!(ports[2].ip_sorights, 1);
    assert_eq!(ports[2].ip_references, 2);
    assert_eq!(ports[1].ip_srights, 2);
}

#[test]
fn test_copyin_header_reply_moves_send_once() {
    let (mut space, mut ports) = setup();
    let mut acts: Vec<IpcAction> = Vec::new();
    let mut msg = header(MACH_MSG_TYPE_MOVE_SEND_ONCE, 0, 0x30, 0);
    assert_eq!(ipc_kmsg_copyin_header(&mut msg, &mut space, &mut ports, &mut acts, 0), MACH_MSG_SUCCESS);
    assert_eq!(msg.msgh_bits, MACH_MSGH_BITS(MACH_MSG_TYPE_PORT_SEND_ONCE, 0));
    assert_eq!(msg.msgh_remote_port, 3);
    assert_eq!(space.is_entries[2].ie_bits, 0);
    assert_eq!(space.is_entries[2].ie_object, 0);
    assert_eq!(ports[3].ip_sorights, 1);
}

#[test]
fn test_copyin_header_same_name_move_send_twice() {
    let (mut space, mut ports) = setup();
    let mut acts: Vec<IpcAction> = Vec::new();
    let mut msg = header(MACH_MSG_TYPE_MOVE_SEND, MACH_MSG_TYPE_MOVE_SEND, 0x10, 0x10);
    assert_eq!(ipc_kmsg_copyin_header(&mut msg, &mut space, &mut ports, &mut acts, 0), MACH_MSG_SUCCESS);
    assert_eq!(msg.msgh_remote_port, 1);
    assert_eq!(msg.msgh_local_port, 1);
    assert_eq!(msg.msgh_bits, MACH_MSGH_BITS(MACH_MSG_TYPE_PORT_SEND, MACH_MSG_TYPE_PORT_SEND));
    assert_eq!(space.is_entries[0].ie_bits, 0);
    assert_eq!(ports[1].ip_srights, 2);
    assert_eq!(acts, vec![IpcAction::ReverseRemove { port: 1 }]);
}

#[test]
fn test_copyin_header_errors() {
    let (mut space, mut ports) = setup();
    let mut acts: Vec<IpcAction> = Vec::new();
    let mut msg = header(MACH_MSG_TYPE_MOVE_RECEIVE, 0, 0x20, 0);
    assert_eq!(ipc_kmsg_copyin_header(&mut msg, &mut space, &mut ports, &mut acts, 0), MACH_SEND_INVALID_HEADER);
    let mut msg = header(MACH_MSG_TYPE_COPY_SEND, 0, 0x10, 0x20);
    assert_eq!(ipc_kmsg_copyin_header(&mut msg, &mut space, &mut ports, &mut acts, 0), MACH_SEND_INVALID_HEADER);
    let mut msg = header(MACH_MSG_TYPE_COPY_SEND, 0, 0x99, 0);
    assert_eq!(ipc_kmsg_copyin_header(&mut msg, &mut space, &mut ports, &mut acts, 0), MACH_SEND_INVALID_DEST);
    assert_eq!(msg.msgh_remote_port, 0x99);
    let mut msg = header(MACH_MSG_TYPE_COPY_SEND, MACH_MSG_TYPE_MAKE_SEND_ONCE, 0x10, 0x99);
    assert_eq!(ipc_kmsg_copyin_header(&mut msg, &mut space, &mut ports, &mut acts, 0), MACH_SEND_INVALID_REPLY);
    let mut msg = header(MACH_MSG_TYPE_COPY_SEND, MACH_MSG_TYPE_MAKE_SEND_ONCE, 0x10, 0x30);
    assert_eq!(ipc_kmsg_copyin_header(&mut msg, &mut space, &mut ports, &mut acts, 0), MACH_SEND_INVALID_REPLY);
    let mut msg = header(MACH_MSG_TYPE_COPY_SEND, 0, 0x10, 0);
    assert_eq!(ipc_kmsg_copyin_header(&mut msg, &mut space, &mut ports, &mut acts, 0x10), MACH_SEND_INVALID_NOTIFY);
    assert_eq!(ipc_kmsg_copyin_header(&mut msg, &mut space, &mut ports, &mut acts, 0x77), MACH_SEND_INVALID_NOTIFY);
    assert_eq!(ipc_kmsg_copyin_header(&mut msg, &mut space, &mut ports, &mut acts, 0x20), MACH_MSG_SUCCESS);
    assert_eq!(ports[1].ip_srights, 2);
    space.is_active = false;
    let mut msg = header(MACH_MSG_TYPE_COPY_SEND, 0, 0x10, 0);
    assert_eq!(ipc_kmsg_copyin_header(&mut msg, &mut space, &mut ports, &mut acts, 0), MACH_SEND_INVALID_DEST);
}

#[test]
fn test_copyin_header_dead_destination() {
    let (mut space, mut ports) = setup();
    ports[1].ip_active = false;
    ports[1].ip_srights = 0;
    let mut acts: Vec<IpcAction> = Vec::new();
    let mut msg = header(MACH_MSG_TYPE_COPY_SEND, 0, 0x10, 0);
    assert_eq!(ipc_kmsg_copyin_header(&mut msg, &mut space, &mut ports, &mut acts, 0), MACH_SEND_INVALID_DEST);
    assert_eq!(space.is_entries[0].ie_bits, MACH_PORT_TYPE_DEAD_NAME | 2);
}

#[test]
fn test_copyin_type() {
    assert_eq!(ipc_object_copyin_type(MACH_MSG_TYPE_MOVE_RECEIVE), MACH_MSG_TYPE_PORT_RECEIVE);
    assert_eq!(ipc_object_copyin_type(MACH_MSG_TYPE_MAKE_SEND_ONCE), MACH_MSG_TYPE_PORT_SEND_ONCE);
    assert_eq!(ipc_object_copyin_type(MACH_MSG_TYPE_COPY_SEND), MACH_MSG_TYPE_PORT_SEND);
    assert_eq!(ipc_object_copyin_type(0), 0);
}

#[test]
fn test_mach_port_names() {
    let (mut space, mut ports) = setup();
    ports[3].ip_active = false;
    ports[3].ip_timestamp = 5;
    space.is_entries.push(ipc_entry { ie_name: 0x40, ie_bits: 0, ie_object: 0, ie_request: 0 });
    let (names, types) = mach_port_names(&space, &ports, 7).unwrap();
    assert_eq!(names, vec![0x10, 0x20, 0x30]);
    assert_eq!(types, vec![MACH_PORT_TYPE_SEND, MACH_PORT_TYPE_RECEIVE, MACH_PORT_TYPE_DEAD_NAME]);
    let (_, types) = mach_port_names(&space, &ports, 3).unwrap();
    assert_eq!(types[2], MACH_PORT_TYPE_SEND_ONCE);
    space.is_active = false;
    assert_eq!(mach_port_names(&space, &ports, 7).err(), Some(KERN_INVALID_TASK));
}
