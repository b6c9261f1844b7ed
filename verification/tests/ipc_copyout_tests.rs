use gnumach::ipc_entry::{ipc_entry_alloc, ipc_entry_alloc_name, ipc_entry_dealloc, ipc_entry_get};
use gnumach::ipc_kmsg_copyout::ipc_kmsg_copyout_header;
use gnumach::ipc_object::{
    ipc_kmsg_copyout_object, ipc_object_copyout, ipc_object_copyout_dest, ipc_object_copyout_name, ipc_port_lookup_notify,
    ipc_right_reverse, mach_port_rename,
};
use gnumach::ipc_port::ipc_port_check_circularity;
use gnumach::ipc_right::{ipc_mqueue, ipc_entry, ipc_port, ipc_space, DnRequest, IpcAction, IO_DEAD};
use gnumach::ipc_table::ipc_table_init;
use gnumach::mach_types::{
    mach_msg_header_t, KERN_INVALID_CAPABILITY, KERN_INVALID_TASK, KERN_NAME_EXISTS, KERN_NO_SPACE, KERN_RIGHT_EXISTS,
    KERN_INVALID_NAME, KERN_INVALID_VALUE, KERN_SUCCESS, MACH_MSGH_BITS, MACH_MSG_IPC_SPACE, MACH_MSG_SUCCESS, MACH_MSG_TYPE_PORT_SEND,
    MACH_MSG_TYPE_PORT_SEND_ONCE, MACH_MSG_TYPE_PROTECTED_PAYLOAD, MACH_PORT_NAME_DEAD, MACH_PORT_NAME_NULL,
    MACH_PORT_TYPE_RECEIVE, MACH_PORT_TYPE_SEND, MACH_PORT_TYPE_SEND_ONCE, MACH_RCV_HEADER_ERROR,
    MACH_RCV_INVALID_NOTIFY,
};

fn port(references: u32, srights: u32, sorights: u32) -> ipc_port {
    ipc_port {
        ip_active: true,
        ip_references: references,
        ip_srights: srights,
        ip_sorights: sorights,
        ip_mscount: 0,
        ip_receiver_name: 0,
        ip_receiver: 0,
        ip_destination: 0,
        ip_nsrequest: 0,
        ip_pdrequest: 0,
        ip_protected_payload: false,
        ip_payload: 0,
        ip_timestamp: 0,
        ip_dnrequests: Vec::new(),
        ip_kotype: 0,
        ip_pset: 0,
        ip_msgcount: 0,
        ip_qlimit: 5,
        ip_seqno: 0,
        ip_blocked: Vec::new(),
        ip_messages: ipc_mqueue { imq_messages: Vec::new(), imq_threads: Vec::new() },
    }
}

/// The receiving space (id 4): entry 0x10 holds the receive right of port
/// 1 (the destination), entry 0x50 the receive right of port 3 (a notify
/// port), entry 0x60 two send rights to port 2; entry 0x20 is free.
fn setup() -> (ipc_space, Vec<ipc_port>) {
    let space = ipc_space {
        is_active: true,
        is_id: 4,
        is_entries: vec![
            ipc_entry { ie_name: 0x10, ie_bits: MACH_PORT_TYPE_RECEIVE, ie_object: 1, ie_request: 0 },
            ipc_entry { ie_name: 0x20, ie_bits: 0, ie_object: 0, ie_request: 0 },
            ipc_entry { ie_name: 0x50, ie_bits: MACH_PORT_TYPE_RECEIVE, ie_object: 3, ie_request: 0 },
            ipc_entry { ie_name: 0x60, ie_bits: MACH_PORT_TYPE_SEND | 2, ie_object: 2, ie_request: 0 },
        ],
    };
    let mut dest = port(2, 1, 1);
    dest.ip_receiver = 4;
    dest.ip_receiver_name = 0x10;
    let mut notify_port = port(1, 0, 0);
    notify_port.ip_receiver = 4;
    notify_port.ip_receiver_name = 0x50;
    (space, vec![port(1, 0, 0), dest, port(3, 3, 1), notify_port])
}

fn header(bits: u32, remote: u32, local: u32) -> mach_msg_header_t {
    mach_msg_header_t { msgh_bits: bits, msgh_size: 24, msgh_remote_port: remote, msgh_local_port: local, msgh_seqno: 0, msgh_id: 7 }
}

#[test]
fn test_entry_get_alloc_dealloc() {
    let (mut space, _ports) = setup();
    assert_eq!(ipc_entry_get(&mut space), (KERN_SUCCESS, 0x20, 1));
    space.is_entries[1].ie_bits = MACH_PORT_TYPE_SEND_ONCE | 1;
    space.is_entries[1].ie_object = 2;
    // nothing free any more: a new entry takes the fresh name
    assert_eq!(ipc_entry_get(&mut space).0, KERN_NO_SPACE);
    assert_eq!(ipc_entry_alloc(&mut space, 0x77), (KERN_SUCCESS, 0x77, 4));
    assert_eq!(space.is_entries.len(), 5);
    ipc_entry_dealloc(&mut space, 4);
    assert_eq!(space.is_entries[4], ipc_entry { ie_name: 0x77, ie_bits: 0, ie_object: 0, ie_request: 0 });
    // the freed entry is reused before a fresh name
    assert_eq!(ipc_entry_alloc(&mut space, 0x99), (KERN_SUCCESS, 0x77, 4));
    space.is_active = false;
    assert_eq!(ipc_entry_alloc(&mut space, 0x99).0, KERN_INVALID_TASK);
}

#[test]
fn test_entry_alloc_name() {
    let (mut space, _ports) = setup();
    assert_eq!(ipc_entry_alloc_name(&mut space, 0x60), (KERN_SUCCESS, 3));
    assert_eq!(ipc_entry_alloc_name(&mut space, 0x20), (KERN_SUCCESS, 1));
    assert_eq!(ipc_entry_alloc_name(&mut space, 0x123), (KERN_SUCCESS, 4));
    assert_eq!(space.is_entries[4], ipc_entry { ie_name: 0x123, ie_bits: 0, ie_object: 0, ie_request: 0 });
}

#[test]
fn test_lookup_notify_and_reverse() {
    let (space, mut ports) = setup();
    assert_eq!(ipc_port_lookup_notify(&space, &mut ports, 0x50), 3);
    assert_eq!((ports[3].ip_references, ports[3].ip_sorights), (2, 1));
    assert_eq!(ipc_port_lookup_notify(&space, &mut ports, 0x60), 0);
    assert_eq!(ipc_port_lookup_notify(&space, &mut ports, 0x99), 0);
    // the receive right's entry for port 1, the send right's for port 2
    assert_eq!(ipc_right_reverse(&space, &ports, 1), Some((0x10, 0)));
    assert_eq!(ipc_right_reverse(&space, &ports, 2), Some((0x60, 3)));
    ports[2].ip_active = false;
    assert_eq!(ipc_right_reverse(&space, &ports, 2), None);
}

#[test]
fn test_copyout_dest_send_last_sender() {
    let (space, mut ports) = setup();
    let mut acts: Vec<IpcAction> = Vec::new();
    ports[1].ip_nsrequest = 8;
    ports[1].ip_mscount = 5;
    assert_eq!(ipc_object_copyout_dest(&space, &mut ports, &mut acts, 1, MACH_MSG_TYPE_PORT_SEND), 0x10);
    assert_eq!((ports[1].ip_srights, ports[1].ip_references, ports[1].ip_nsrequest), (0, 1, 0));
    assert_eq!(acts, vec![IpcAction::NotifyNoSenders { notify: 8, mscount: 5 }]);
}

#[test]
fn test_copyout_dest_send_once_elsewhere() {
    let (space, mut ports) = setup();
    let mut acts: Vec<IpcAction> = Vec::new();
    ports[1].ip_receiver = 5;
    assert_eq!(ipc_object_copyout_dest(&space, &mut ports, &mut acts, 1, MACH_MSG_TYPE_PORT_SEND_ONCE), MACH_PORT_NAME_NULL);
    assert_eq!((ports[1].ip_sorights, ports[1].ip_references), (1, 2));
    assert_eq!(acts, vec![IpcAction::NotifySendOnce { port: 1 }]);
}

#[test]
fn test_object_copyout() {
    let (mut space, mut ports) = setup();
    let mut acts: Vec<IpcAction> = Vec::new();
    // a send right to port 2 joins the entry already holding send rights
    assert_eq!(
        ipc_object_copyout(&mut space, &mut ports, &mut acts, 2, MACH_MSG_TYPE_PORT_SEND, false, 0x77),
        (KERN_SUCCESS, 0x60)
    );
    assert_eq!(space.is_entries[3].ie_bits, MACH_PORT_TYPE_SEND | 3);
    assert_eq!((ports[2].ip_srights, ports[2].ip_references), (2, 2));
    // a send-once right always gets an entry of its own: the free one
    assert_eq!(
        ipc_object_copyout(&mut space, &mut ports, &mut acts, 2, MACH_MSG_TYPE_PORT_SEND_ONCE, false, 0x77),
        (KERN_SUCCESS, 0x20)
    );
    assert_eq!(space.is_entries[1], ipc_entry { ie_name: 0x20, ie_bits: MACH_PORT_TYPE_SEND_ONCE | 1, ie_object: 2, ie_request: 0 });
    // a dead port: the new entry goes back to the free list
    ports[2].ip_active = false;
    assert_eq!(
        ipc_object_copyout(&mut space, &mut ports, &mut acts, 2, MACH_MSG_TYPE_PORT_SEND_ONCE, false, 0x77),
        (KERN_INVALID_CAPABILITY, 0)
    );
    assert_eq!(space.is_entries[4], ipc_entry { ie_name: 0x77, ie_bits: 0, ie_object: 0, ie_request: 0 });
}

#[test]
fn test_object_copyout_name() {
    let (mut space, mut ports) = setup();
    let mut acts: Vec<IpcAction> = Vec::new();
    // port 2 is already named 0x60
    assert_eq!(
        ipc_object_copyout_name(&mut space, &mut ports, &mut acts, 2, MACH_MSG_TYPE_PORT_SEND, false, 0x20),
        KERN_RIGHT_EXISTS
    );
    assert_eq!(space.is_entries[1].ie_bits, 0);
    // 0x50 names another right
    assert_eq!(
        ipc_object_copyout_name(&mut space, &mut ports, &mut acts, 2, MACH_MSG_TYPE_PORT_SEND_ONCE, false, 0x50),
        KERN_NAME_EXISTS
    );
    // a send-once right under a new name
    assert_eq!(
        ipc_object_copyout_name(&mut space, &mut ports, &mut acts, 2, MACH_MSG_TYPE_PORT_SEND_ONCE, false, 0x88),
        KERN_SUCCESS
    );
    assert_eq!(space.is_entries[4], ipc_entry { ie_name: 0x88, ie_bits: MACH_PORT_TYPE_SEND_ONCE | 1, ie_object: 2, ie_request: 0 });
}

#[test]
fn test_copyout_header_plain_send() {
    let (mut space, mut ports) = setup();
    let mut acts: Vec<IpcAction> = Vec::new();
    let sizes = ipc_table_init();
    let mut msg = header(MACH_MSGH_BITS(MACH_MSG_TYPE_PORT_SEND, 0), 1, 0);
    assert_eq!(ipc_kmsg_copyout_header(&mut msg, &mut space, &mut ports, &mut acts, &sizes, 0x77, 0), MACH_MSG_SUCCESS);
    assert_eq!(msg.msgh_bits, MACH_MSGH_BITS(0, MACH_MSG_TYPE_PORT_SEND));
    assert_eq!((msg.msgh_remote_port, msg.msgh_local_port), (MACH_PORT_NAME_NULL, 0x10));
    assert_eq!((ports[1].ip_srights, ports[1].ip_references), (0, 1));
    assert_eq!((msg.msgh_size, msg.msgh_id), (24, 7));
}

#[test]
fn test_copyout_header_payload() {
    let (mut space, mut ports) = setup();
    let mut acts: Vec<IpcAction> = Vec::new();
    let sizes = ipc_table_init();
    ports[1].ip_protected_payload = true;
    ports[1].ip_payload = 0xabc;
    let mut msg = header(MACH_MSGH_BITS(MACH_MSG_TYPE_PORT_SEND_ONCE, 0), 1, 0);
    assert_eq!(ipc_kmsg_copyout_header(&mut msg, &mut space, &mut ports, &mut acts, &sizes, 0x77, 0), MACH_MSG_SUCCESS);
    assert_eq!(msg.msgh_bits, MACH_MSGH_BITS(0, MACH_MSG_TYPE_PROTECTED_PAYLOAD));
    assert_eq!((msg.msgh_remote_port, msg.msgh_local_port), (MACH_PORT_NAME_NULL, 0xabc));
    assert_eq!((ports[1].ip_sorights, ports[1].ip_references), (0, 1));
}

#[test]
fn test_copyout_header_request() {
    let (mut space, mut ports) = setup();
    let mut acts: Vec<IpcAction> = Vec::new();
    let sizes = ipc_table_init();
    let mut msg = header(MACH_MSGH_BITS(MACH_MSG_TYPE_PORT_SEND, MACH_MSG_TYPE_PORT_SEND_ONCE), 1, 2);
    assert_eq!(ipc_kmsg_copyout_header(&mut msg, &mut space, &mut ports, &mut acts, &sizes, 0x77, 0), MACH_MSG_SUCCESS);
    assert_eq!(msg.msgh_bits, MACH_MSGH_BITS(MACH_MSG_TYPE_PORT_SEND_ONCE, MACH_MSG_TYPE_PORT_SEND));
    assert_eq!((msg.msgh_remote_port, msg.msgh_local_port), (0x20, 0x10));
    assert_eq!(space.is_entries[1], ipc_entry { ie_name: 0x20, ie_bits: MACH_PORT_TYPE_SEND_ONCE | 1, ie_object: 2, ie_request: 0 });
    assert_eq!(ports[2].ip_references, 3);
}

#[test]
fn test_copyout_header_send_reply_joins_entry() {
    let (mut space, mut ports) = setup();
    let mut acts: Vec<IpcAction> = Vec::new();
    let sizes = ipc_table_init();
    let mut msg = header(MACH_MSGH_BITS(MACH_MSG_TYPE_PORT_SEND, MACH_MSG_TYPE_PORT_SEND), 1, 2);
    assert_eq!(ipc_kmsg_copyout_header(&mut msg, &mut space, &mut ports, &mut acts, &sizes, 0x77, 0), MACH_MSG_SUCCESS);
    assert_eq!(msg.msgh_bits, MACH_MSGH_BITS(MACH_MSG_TYPE_PORT_SEND, MACH_MSG_TYPE_PORT_SEND));
    assert_eq!((msg.msgh_remote_port, msg.msgh_local_port), (0x60, 0x10));
    assert_eq!(space.is_entries[3].ie_bits, MACH_PORT_TYPE_SEND | 3);
    // the reply's send right and reference merged into the entry's
    assert_eq!((ports[2].ip_srights, ports[2].ip_references), (2, 2));
}

#[test]
fn test_copyout_header_reply_with_notify_grows_table() {
    let (mut space, mut ports) = setup();
    let mut acts: Vec<IpcAction> = Vec::new();
    let sizes = ipc_table_init();
    space.is_entries[1].ie_bits = MACH_PORT_TYPE_SEND_ONCE | 1;
    space.is_entries[1].ie_object = 2;
    let mut msg = header(MACH_MSGH_BITS(MACH_MSG_TYPE_PORT_SEND, MACH_MSG_TYPE_PORT_SEND_ONCE), 1, 2);
    assert_eq!(ipc_kmsg_copyout_header(&mut msg, &mut space, &mut ports, &mut acts, &sizes, 0x77, 0x50), MACH_MSG_SUCCESS);
    assert_eq!(msg.msgh_bits, MACH_MSGH_BITS(MACH_MSG_TYPE_PORT_SEND_ONCE, MACH_MSG_TYPE_PORT_SEND));
    assert_eq!((msg.msgh_remote_port, msg.msgh_local_port), (0x77, 0x10));
    assert_eq!(space.is_entries[4], ipc_entry { ie_name: 0x77, ie_bits: MACH_PORT_TYPE_SEND_ONCE | 1, ie_object: 2, ie_request: 1 });
    assert_eq!(ports[2].ip_dnrequests, vec![DnRequest { name: 0, notify: 0 }, DnRequest { name: 0x77, notify: 3 }]);
    assert_eq!((ports[3].ip_references, ports[3].ip_sorights), (2, 1));
    assert_eq!(ports[2].ip_references, 3);
    assert!(acts.is_empty());
}

#[test]
fn test_copyout_header_dead_reply_and_dead_dest() {
    let (mut space, mut ports) = setup();
    let mut acts: Vec<IpcAction> = Vec::new();
    let sizes = ipc_table_init();
    ports[2].ip_active = false;
    ports[2].ip_references = 1;
    ports[1].ip_active = false;
    ports[1].ip_references = 1;
    let mut msg = header(MACH_MSGH_BITS(MACH_MSG_TYPE_PORT_SEND, MACH_MSG_TYPE_PORT_SEND_ONCE), 1, 2);
    assert_eq!(ipc_kmsg_copyout_header(&mut msg, &mut space, &mut ports, &mut acts, &sizes, 0x77, 0), MACH_MSG_SUCCESS);
    assert_eq!((msg.msgh_remote_port, msg.msgh_local_port), (MACH_PORT_NAME_DEAD, MACH_PORT_NAME_DEAD));
    assert_eq!(acts, vec![IpcAction::FreeObject { object: 2 }, IpcAction::FreeObject { object: 1 }]);
}

#[test]
fn test_copyout_header_dead_dest_timestamps() {
    let (mut space, mut ports) = setup();
    let mut acts: Vec<IpcAction> = Vec::new();
    let sizes = ipc_table_init();
    // a dead reply port: both names come out dead
    ports[1].ip_active = false;
    ports[1].ip_timestamp = 20;
    ports[2].ip_active = false;
    ports[2].ip_timestamp = 10;
    let mut msg = header(MACH_MSGH_BITS(MACH_MSG_TYPE_PORT_SEND, MACH_MSG_TYPE_PORT_SEND), 1, 2);
    assert_eq!(ipc_kmsg_copyout_header(&mut msg, &mut space, &mut ports, &mut acts, &sizes, 0x77, 0), MACH_MSG_SUCCESS);
    assert_eq!((msg.msgh_remote_port, msg.msgh_local_port), (MACH_PORT_NAME_DEAD, MACH_PORT_NAME_DEAD));
    let (mut space, mut ports) = setup();
    ports[1].ip_active = false;
    ports[1].ip_timestamp = 20;
    ports[2].ip_timestamp = 10;
    let mut msg = header(MACH_MSGH_BITS(MACH_MSG_TYPE_PORT_SEND, MACH_MSG_TYPE_PORT_SEND_ONCE), 1, 2);
    space.is_entries[1].ie_bits = MACH_PORT_TYPE_SEND_ONCE | 1;
    space.is_entries[1].ie_object = 3;
    assert_eq!(ipc_kmsg_copyout_header(&mut msg, &mut space, &mut ports, &mut acts, &sizes, 0x77, 0), MACH_MSG_SUCCESS);
    // the reply port is alive: the destination is reported dead
    assert_eq!((msg.msgh_remote_port, msg.msgh_local_port), (0x77, MACH_PORT_NAME_DEAD));
}

#[test]
fn test_copyout_header_errors() {
    let (mut space, mut ports) = setup();
    let mut acts: Vec<IpcAction> = Vec::new();
    let sizes = ipc_table_init();
    let mut msg = header(MACH_MSGH_BITS(MACH_MSG_TYPE_PORT_SEND, 0), 1, 0);
    // a notify name that is no receive right
    assert_eq!(
        ipc_kmsg_copyout_header(&mut msg, &mut space, &mut ports, &mut acts, &sizes, 0x77, 0x60),
        MACH_RCV_INVALID_NOTIFY
    );
    assert_eq!(msg.msgh_bits, MACH_MSGH_BITS(MACH_MSG_TYPE_PORT_SEND, 0));
    space.is_active = false;
    let mut msg = header(MACH_MSGH_BITS(MACH_MSG_TYPE_PORT_SEND, MACH_MSG_TYPE_PORT_SEND), 1, 2);
    assert_eq!(
        ipc_kmsg_copyout_header(&mut msg, &mut space, &mut ports, &mut acts, &sizes, 0x77, 0),
        MACH_RCV_HEADER_ERROR | MACH_MSG_IPC_SPACE
    );
    assert_eq!((msg.msgh_remote_port, msg.msgh_local_port), (1, 2));
    let _ = IO_DEAD;
}

#[test]
fn test_rename_moves_receive_right() {
    let (mut space, mut ports) = setup();
    let mut acts: Vec<IpcAction> = Vec::new();
    assert_eq!(mach_port_rename(&mut space, &mut ports, &mut acts, 0x10, 0), KERN_INVALID_VALUE);
    assert_eq!(mach_port_rename(&mut space, &mut ports, &mut acts, 0x10, 0x50), KERN_NAME_EXISTS);
    assert_eq!(mach_port_rename(&mut space, &mut ports, &mut acts, 0x99, 0x98), KERN_INVALID_NAME);
    assert_eq!(space.is_entries[4], ipc_entry { ie_name: 0x98, ie_bits: 0, ie_object: 0, ie_request: 0 });
    assert_eq!(mach_port_rename(&mut space, &mut ports, &mut acts, 0x10, 0x20), KERN_SUCCESS);
    assert_eq!(space.is_entries[0], ipc_entry { ie_name: 0x10, ie_bits: 0, ie_object: 0, ie_request: 0 });
    assert_eq!(space.is_entries[1], ipc_entry { ie_name: 0x20, ie_bits: MACH_PORT_TYPE_RECEIVE, ie_object: 1, ie_request: 0 });
    assert_eq!(ports[1].ip_receiver_name, 0x20);
    assert!(acts.is_empty());
}

#[test]
fn test_rename_send_right_with_request() {
    let (mut space, mut ports) = setup();
    let mut acts: Vec<IpcAction> = Vec::new();
    space.is_entries[3].ie_request = 1;
    ports[2].ip_dnrequests = vec![DnRequest { name: 0, notify: 0 }, DnRequest { name: 0x60, notify: 3 }];
    assert_eq!(mach_port_rename(&mut space, &mut ports, &mut acts, 0x60, 0x61), KERN_SUCCESS);
    assert_eq!(space.is_entries[4], ipc_entry { ie_name: 0x61, ie_bits: MACH_PORT_TYPE_SEND | 2, ie_object: 2, ie_request: 1 });
    assert_eq!(ports[2].ip_dnrequests[1], DnRequest { name: 0x61, notify: 3 });
    assert_eq!(space.is_entries[3].ie_bits, 0);
    assert_eq!(
        acts,
        vec![IpcAction::ReverseRemove { port: 2 }, IpcAction::ReverseInsert { port: 2, name: 0x61 }]
    );
}

#[test]
fn test_check_circularity() {
    let (_space, mut ports) = setup();
    // port 2 travels in a message queued on port 3 (in transit)
    ports[2].ip_receiver_name = 0;
    ports[2].ip_destination = 3;
    // queueing port 3's receive right on port 2 would close a loop
    ports[3].ip_receiver_name = 0;
    assert!(ipc_port_check_circularity(&mut ports, 3, 2));
    assert_eq!(ports[2].ip_references, 3);
    assert!(ipc_port_check_circularity(&mut ports, 2, 2));
    // queueing port 1's receive right on port 2 is fine
    ports[1].ip_receiver_name = 0;
    assert!(!ipc_port_check_circularity(&mut ports, 1, 2));
    assert_eq!(ports[1].ip_destination, 2);
    assert_eq!(ports[2].ip_references, 4);
}

#[test]
fn test_kmsg_copyout_object() {
    let (mut space, mut ports) = setup();
    let mut acts: Vec<IpcAction> = Vec::new();
    assert_eq!(ipc_kmsg_copyout_object(&mut space, &mut ports, &mut acts, 0, MACH_MSG_TYPE_PORT_SEND, 0x77), (MACH_MSG_SUCCESS, 0));
    assert_eq!(
        ipc_kmsg_copyout_object(&mut space, &mut ports, &mut acts, IO_DEAD, MACH_MSG_TYPE_PORT_SEND, 0x77),
        (MACH_MSG_SUCCESS, MACH_PORT_NAME_DEAD)
    );
    // a send right joins the send entry
    assert_eq!(ipc_kmsg_copyout_object(&mut space, &mut ports, &mut acts, 2, MACH_MSG_TYPE_PORT_SEND, 0x77), (MACH_MSG_SUCCESS, 0x60));
    assert_eq!(space.is_entries[3].ie_bits, MACH_PORT_TYPE_SEND | 3);
    assert_eq!((ports[2].ip_srights, ports[2].ip_references), (2, 2));
    // a send-once right to a dead port is destroyed: a send-once notification
    ports[2].ip_active = false;
    assert_eq!(
        ipc_kmsg_copyout_object(&mut space, &mut ports, &mut acts, 2, MACH_MSG_TYPE_PORT_SEND_ONCE, 0x77),
        (MACH_MSG_SUCCESS, MACH_PORT_NAME_DEAD)
    );
    assert_eq!(acts, vec![IpcAction::NotifySendOnce { port: 2 }]);
}
