use gnumach::ipc_mqueue::{thread, MqueueId};
use gnumach::ipc_object::{ipc_object_copyin, ipc_object_translate};
use gnumach::ipc_port::{ipc_port_clear_receiver, ipc_port_lock_mqueue, ipc_port_nsrequest};
use gnumach::ipc_pset::{ipc_mqueue_changed, ipc_mqueue_move, ipc_pset_destroy};
use gnumach::ipc_right::{ipc_entry, ipc_mqueue, ipc_port, ipc_pset, ipc_space, IpcAction, IO_DEAD};
use gnumach::mach_port::{
    mach_port_allocate, mach_port_allocate_name, mach_port_clear_protected_payload, mach_port_extract_right,
    mach_port_get_receive_status, mach_port_get_set_status, mach_port_insert_right, mach_port_move_member,
    mach_port_request_notification, mach_port_set_ktype, mach_port_set_mscount, mach_port_set_protected_payload,
    mach_port_set_qlimit, mach_port_set_seqno,
};
use gnumach::mach_types::{
    mach_msg_header_t, mach_port_status_t, IKOT_DEVICE, IKOT_USER_DEVICE, KERN_INVALID_ARGUMENT, KERN_INVALID_CAPABILITY,
    KERN_INVALID_HOST, KERN_INVALID_NAME, KERN_INVALID_RIGHT, KERN_INVALID_TASK, KERN_INVALID_VALUE, KERN_NAME_EXISTS,
    KERN_NOT_IN_SET, KERN_SUCCESS, MACH_MSGH_BITS, MACH_MSG_SUCCESS, MACH_MSG_TYPE_COPY_SEND, MACH_MSG_TYPE_MAKE_SEND,
    MACH_MSG_TYPE_MOVE_SEND, MACH_MSG_TYPE_PORT_SEND, MACH_NOTIFY_DEAD_NAME, MACH_NOTIFY_NO_SENDERS,
    MACH_NOTIFY_PORT_DESTROYED, MACH_PORT_KTYPE_NONE, MACH_PORT_KTYPE_USER_DEVICE, MACH_PORT_QLIMIT_DEFAULT,
    MACH_PORT_RIGHT_DEAD_NAME, MACH_PORT_RIGHT_PORT_SET, MACH_PORT_RIGHT_RECEIVE,
    MACH_PORT_RIGHT_SEND, MACH_PORT_TYPE_DEAD_NAME, MACH_PORT_TYPE_PORT_SET, MACH_PORT_TYPE_RECEIVE,
    MACH_PORT_TYPE_SEND, MACH_PORT_TYPE_SEND_RECEIVE, MACH_RCV_PORT_CHANGED, MACH_RCV_PORT_DIED, MACH_RCV_TOO_LARGE,
};

fn port(receiver_name: u32, receiver: u32) -> ipc_port {
    ipc_port {
        ip_active: true,
        ip_references: 1,
        ip_srights: 0,
        ip_sorights: 0,
        ip_mscount: 0,
        ip_receiver_name: receiver_name,
        ip_receiver: receiver,
        ip_destination: 0,
        ip_nsrequest: 0,
        ip_pdrequest: 0,
        ip_protected_payload: false,
        ip_payload: 0,
        ip_timestamp: 0,
        ip_dnrequests: Vec::new(),
        ip_kotype: 0,
        ip_pset: 0,
        ip_msgcount: 0,
        ip_qlimit: 5,
        ip_seqno: 0,
        ip_blocked: Vec::new(),
        ip_messages: ipc_mqueue { imq_messages: Vec::new(), imq_threads: Vec::new() },
    }
}

fn pset(name: u32) -> ipc_pset {
    ipc_pset { ips_active: true, ips_local_name: name, ips_messages: ipc_mqueue { imq_messages: Vec::new(), imq_threads: Vec::new() } }
}

fn msg(remote: u32, id: i32, size: u32) -> mach_msg_header_t {
    mach_msg_header_t {
        msgh_bits: MACH_MSGH_BITS(MACH_MSG_TYPE_PORT_SEND, 0),
        msgh_size: size,
        msgh_remote_port: remote,
        msgh_local_port: 0,
        msgh_seqno: 0,
        msgh_id: id,
    }
}

fn idle(msize: u32) -> thread {
    thread { ith_state: MACH_MSG_SUCCESS, ith_msize: msize, ith_kmsg: msg(0, 0, 0), ith_seqno: 0 }
}

/// Space 4: 0x10 names the receive right of port 1, 0x11 that of port 2,
/// 0x30 the port set 1, 0x40 a send right to port 3; entry 0x20 is free.
fn setup() -> (ipc_space, Vec<ipc_port>, Vec<ipc_pset>, Vec<thread>, Vec<IpcAction>) {
    let space = ipc_space {
        is_active: true,
        is_id: 4,
        is_entries: vec![
            ipc_entry { ie_name: 0x10, ie_bits: MACH_PORT_TYPE_RECEIVE, ie_object: 1, ie_request: 0 },
            ipc_entry { ie_name: 0x20, ie_bits: 0, ie_object: 0, ie_request: 0 },
            ipc_entry { ie_name: 0x11, ie_bits: MACH_PORT_TYPE_RECEIVE, ie_object: 2, ie_request: 0 },
            ipc_entry { ie_name: 0x30, ie_bits: MACH_PORT_TYPE_PORT_SET, ie_object: 1, ie_request: 0 },
            ipc_entry { ie_name: 0x40, ie_bits: MACH_PORT_TYPE_SEND | 1, ie_object: 3, ie_request: 0 },
        ],
    };
    let mut other = port(0x99, 7);
    other.ip_srights = 1;
    other.ip_references = 2;
    let ports = vec![port(0, 0), port(0x10, 4), port(0x11, 4), other];
    let psets = vec![pset(0), pset(0x30)];
    (space, ports, psets, vec![idle(0), idle(64), idle(8)], Vec::new())
}

#[test]
fn test_allocate_rights() {
    let (mut space, mut ports, mut psets, _threads, _acts) = setup();
    // the free entry 0x20 is reused first
    assert_eq!(mach_port_allocate(&mut space, &mut ports, &mut psets, MACH_PORT_RIGHT_RECEIVE, 0x50), (KERN_SUCCESS, 0x20));
    assert_eq!(space.is_entries[1], ipc_entry { ie_name: 0x20, ie_bits: MACH_PORT_TYPE_RECEIVE, ie_object: 4, ie_request: 0 });
    assert_eq!(ports.len(), 5);
    let p = &ports[4];
    assert!(p.ip_active);
    assert_eq!((p.ip_references, p.ip_receiver_name, p.ip_receiver, p.ip_qlimit), (1, 0x20, 4, MACH_PORT_QLIMIT_DEFAULT));
    // then a new entry under the fresh name
    assert_eq!(mach_port_allocate(&mut space, &mut ports, &mut psets, MACH_PORT_RIGHT_PORT_SET, 0x50), (KERN_SUCCESS, 0x50));
    assert_eq!(space.is_entries[5], ipc_entry { ie_name: 0x50, ie_bits: MACH_PORT_TYPE_PORT_SET, ie_object: 2, ie_request: 0 });
    assert_eq!((psets.len(), psets[2].ips_active, psets[2].ips_local_name), (3, true, 0x50));
    assert_eq!(mach_port_allocate(&mut space, &mut ports, &mut psets, MACH_PORT_RIGHT_DEAD_NAME, 0x51), (KERN_SUCCESS, 0x51));
    assert_eq!(space.is_entries[6], ipc_entry { ie_name: 0x51, ie_bits: MACH_PORT_TYPE_DEAD_NAME | 1, ie_object: 0, ie_request: 0 });
    assert_eq!(mach_port_allocate(&mut space, &mut ports, &mut psets, MACH_PORT_RIGHT_SEND, 0x52).0, KERN_INVALID_VALUE);
    space.is_active = false;
    assert_eq!(mach_port_allocate(&mut space, &mut ports, &mut psets, MACH_PORT_RIGHT_RECEIVE, 0x52).0, KERN_INVALID_TASK);
    assert_eq!(space.is_entries.len(), 7);
}

#[test]
fn test_allocate_name() {
    let (mut space, mut ports, mut psets, _threads, _acts) = setup();
    assert_eq!(mach_port_allocate_name(&mut space, &mut ports, &mut psets, MACH_PORT_RIGHT_RECEIVE, 0), KERN_INVALID_VALUE);
    assert_eq!(mach_port_allocate_name(&mut space, &mut ports, &mut psets, MACH_PORT_RIGHT_RECEIVE, !0), KERN_INVALID_VALUE);
    assert_eq!(mach_port_allocate_name(&mut space, &mut ports, &mut psets, MACH_PORT_RIGHT_SEND, 0x70), KERN_INVALID_VALUE);
    assert_eq!(mach_port_allocate_name(&mut space, &mut ports, &mut psets, MACH_PORT_RIGHT_RECEIVE, 0x10), KERN_NAME_EXISTS);
    assert_eq!(mach_port_allocate_name(&mut space, &mut ports, &mut psets, MACH_PORT_RIGHT_DEAD_NAME, 0x10), KERN_NAME_EXISTS);
    assert_eq!(ports.len(), 4);
    // a free entry's name, then a new name
    assert_eq!(mach_port_allocate_name(&mut space, &mut ports, &mut psets, MACH_PORT_RIGHT_PORT_SET, 0x20), KERN_SUCCESS);
    assert_eq!(space.is_entries[1], ipc_entry { ie_name: 0x20, ie_bits: MACH_PORT_TYPE_PORT_SET, ie_object: 2, ie_request: 0 });
    assert_eq!(mach_port_allocate_name(&mut space, &mut ports, &mut psets, MACH_PORT_RIGHT_RECEIVE, 0x70), KERN_SUCCESS);
    assert_eq!(space.is_entries[5], ipc_entry { ie_name: 0x70, ie_bits: MACH_PORT_TYPE_RECEIVE, ie_object: 4, ie_request: 0 });
    assert_eq!((ports[4].ip_receiver_name, ports[4].ip_receiver), (0x70, 4));
}

#[test]
fn test_translate() {
    let (space, _ports, _psets, _threads, _acts) = setup();
    assert_eq!(ipc_object_translate(&space, 0x10, MACH_PORT_RIGHT_RECEIVE), Ok(1));
    assert_eq!(ipc_object_translate(&space, 0x40, MACH_PORT_RIGHT_SEND), Ok(3));
    assert_eq!(ipc_object_translate(&space, 0x40, MACH_PORT_RIGHT_RECEIVE), Err(KERN_INVALID_RIGHT));
    assert_eq!(ipc_object_translate(&space, 0x20, MACH_PORT_RIGHT_RECEIVE), Err(KERN_INVALID_NAME));
    let dead = ipc_space { is_active: false, is_id: 4, is_entries: Vec::new() };
    assert_eq!(ipc_object_translate(&dead, 0x10, MACH_PORT_RIGHT_RECEIVE), Err(KERN_INVALID_TASK));
}

#[test]
fn test_mscount_and_qlimit() {
    let (space, mut ports, psets, mut threads, mut acts) = setup();
    assert_eq!(mach_port_set_mscount(&space, &mut ports, 0x10, 9), KERN_SUCCESS);
    assert_eq!(ports[1].ip_mscount, 9);
    assert_eq!(mach_port_set_mscount(&space, &mut ports, 0x40, 9), KERN_INVALID_RIGHT);
    // three senders blocked on port 1; raising the limit by 2 lets two go
    ports[1].ip_blocked = vec![2, 0, 1];
    threads[2].ith_state = 7;
    assert_eq!(mach_port_set_qlimit(&space, &mut ports, &psets, &mut threads, &mut acts, 0x10, 17), KERN_INVALID_VALUE);
    assert_eq!(mach_port_set_qlimit(&space, &mut ports, &psets, &mut threads, &mut acts, 0x10, 7), KERN_SUCCESS);
    assert_eq!(ports[1].ip_qlimit, 7);
    assert_eq!(ports[1].ip_blocked, vec![1]);
    assert_eq!(threads[2].ith_state, MACH_MSG_SUCCESS);
    assert_eq!(acts, vec![IpcAction::WakeThread { thread: 2 }, IpcAction::WakeThread { thread: 0 }]);
    // lowering it wakes nobody
    assert_eq!(mach_port_set_qlimit(&space, &mut ports, &psets, &mut threads, &mut acts, 0x10, 1), KERN_SUCCESS);
    assert_eq!((ports[1].ip_qlimit, ports[1].ip_blocked.len(), acts.len()), (1, 1, 2));
    // more room than senders: all go
    assert_eq!(mach_port_set_qlimit(&space, &mut ports, &psets, &mut threads, &mut acts, 0x10, 16), KERN_SUCCESS);
    assert!(ports[1].ip_blocked.is_empty());
    assert_eq!(acts.len(), 3);
}

#[test]
fn test_seqno_payload_and_status() {
    let (space, mut ports, mut psets, mut threads, mut acts) = setup();
    assert_eq!(mach_port_set_seqno(&space, &mut ports, &mut psets, &mut threads, &mut acts, 0x10, 42), KERN_SUCCESS);
    assert_eq!(ports[1].ip_seqno, 42);
    assert_eq!(mach_port_set_seqno(&space, &mut ports, &mut psets, &mut threads, &mut acts, 0x77, 42), KERN_INVALID_NAME);
    assert_eq!(mach_port_set_protected_payload(&space, &mut ports, &mut psets, &mut threads, &mut acts, 0x10, 0xfeed), KERN_SUCCESS);
    assert!(ports[1].ip_protected_payload);
    assert_eq!(ports[1].ip_payload, 0xfeed);
    assert_eq!(mach_port_clear_protected_payload(&space, &mut ports, &mut psets, &mut threads, &mut acts, 0x10), KERN_SUCCESS);
    assert!(!ports[1].ip_protected_payload);
    ports[1].ip_srights = 2;
    ports[1].ip_sorights = 1;
    ports[1].ip_nsrequest = 3;
    ports[1].ip_msgcount = 2;
    ports[1].ip_mscount = 5;
    let st = mach_port_get_receive_status(&space, &mut ports, &mut psets, &mut threads, &mut acts, 0x10);
    assert_eq!(
        st,
        Ok(mach_port_status_t {
            mps_pset: 0,
            mps_seqno: 42,
            mps_mscount: 5,
            mps_qlimit: 5,
            mps_msgcount: 2,
            mps_sorights: 1,
            mps_srights: 1,
            mps_pdrequest: 0,
            mps_nsrequest: 1,
        })
    );
    assert_eq!(mach_port_get_receive_status(&space, &mut ports, &mut psets, &mut threads, &mut acts, 0x40), Err(KERN_INVALID_RIGHT));
    // in a live set, the set's name is reported
    assert_eq!(mach_port_move_member(&space, &mut ports, &mut psets, &mut threads, &mut acts, 0x10, 0x30), KERN_SUCCESS);
    assert_eq!(mach_port_get_receive_status(&space, &mut ports, &mut psets, &mut threads, &mut acts, 0x10).unwrap().mps_pset, 0x30);
    // a port whose set died leaves it when its queue is looked for
    psets[1].ips_active = false;
    assert_eq!(mach_port_get_receive_status(&space, &mut ports, &mut psets, &mut threads, &mut acts, 0x10).unwrap().mps_pset, 0);
    assert_eq!(ports[1].ip_pset, 0);
}

#[test]
fn test_lock_mqueue() {
    let (_space, mut ports, mut psets, mut threads, mut acts) = setup();
    assert_eq!(ipc_port_lock_mqueue(&mut ports, &mut psets, &mut threads, &mut acts, 1), MqueueId::Port { port: 1 });
    ports[1].ip_pset = 1;
    assert_eq!(ipc_port_lock_mqueue(&mut ports, &mut psets, &mut threads, &mut acts, 1), MqueueId::Pset { pset: 1 });
    psets[1].ips_active = false;
    psets[1].ips_messages.imq_messages = vec![msg(2, 1, 8), msg(1, 2, 8)];
    assert_eq!(ipc_port_lock_mqueue(&mut ports, &mut psets, &mut threads, &mut acts, 1), MqueueId::Port { port: 1 });
    assert_eq!(ports[1].ip_pset, 0);
    assert_eq!(ports[1].ip_messages.imq_messages, vec![msg(1, 2, 8)]);
    assert_eq!(psets[1].ips_messages.imq_messages, vec![msg(2, 1, 8)]);
}

#[test]
fn test_move_member_and_set_status() {
    let (space, mut ports, mut psets, mut threads, mut acts) = setup();
    ports[1].ip_messages.imq_messages = vec![msg(1, 1, 8), msg(1, 2, 8)];
    ports[1].ip_messages.imq_threads = vec![2];
    ports[1].ip_seqno = 10;
    // a receiver waits on the set: it takes the first message
    psets[1].ips_messages.imq_threads = vec![1];
    assert_eq!(mach_port_move_member(&space, &mut ports, &mut psets, &mut threads, &mut acts, 0x10, 0x30), KERN_SUCCESS);
    assert_eq!(ports[1].ip_pset, 1);
    assert!(ports[1].ip_messages.imq_messages.is_empty());
    assert!(ports[1].ip_messages.imq_threads.is_empty());
    assert_eq!((threads[1].ith_state, threads[1].ith_kmsg, threads[1].ith_seqno), (MACH_MSG_SUCCESS, msg(1, 1, 8), 10));
    assert_eq!(threads[2].ith_state, MACH_RCV_PORT_CHANGED);
    assert_eq!(psets[1].ips_messages.imq_messages, vec![msg(1, 2, 8)]);
    assert_eq!(ports[1].ip_seqno, 11);
    assert_eq!(acts, vec![IpcAction::WakeThread { thread: 1 }, IpcAction::WakeThread { thread: 2 }]);
    assert_eq!(mach_port_move_member(&space, &mut ports, &mut psets, &mut threads, &mut acts, 0x11, 0x30), KERN_SUCCESS);
    assert_eq!(mach_port_get_set_status(&space, &ports, 0x30), Ok(vec![0x10, 0x11]));
    assert_eq!(mach_port_get_set_status(&space, &ports, 0x10), Err(KERN_INVALID_RIGHT));
    assert_eq!(mach_port_get_set_status(&space, &ports, 0x20), Err(KERN_INVALID_NAME));
    // out of the set again: the message comes back
    assert_eq!(mach_port_move_member(&space, &mut ports, &mut psets, &mut threads, &mut acts, 0x10, 0), KERN_SUCCESS);
    assert_eq!(ports[1].ip_messages.imq_messages, vec![msg(1, 2, 8)]);
    assert!(psets[1].ips_messages.imq_messages.is_empty());
    assert_eq!(mach_port_get_set_status(&space, &ports, 0x30), Ok(vec![0x11]));
    assert_eq!(mach_port_move_member(&space, &mut ports, &mut psets, &mut threads, &mut acts, 0x10, 0), KERN_NOT_IN_SET);
    // errors
    assert_eq!(mach_port_move_member(&space, &mut ports, &mut psets, &mut threads, &mut acts, 0x40, 0x30), KERN_INVALID_RIGHT);
    assert_eq!(mach_port_move_member(&space, &mut ports, &mut psets, &mut threads, &mut acts, 0x10, 0x40), KERN_INVALID_RIGHT);
    assert_eq!(mach_port_move_member(&space, &mut ports, &mut psets, &mut threads, &mut acts, 0x10, 0x77), KERN_INVALID_NAME);
    assert_eq!(mach_port_move_member(&space, &mut ports, &mut psets, &mut threads, &mut acts, 0x77, 0x30), KERN_INVALID_NAME);
}

#[test]
fn test_join_and_leave_restores_messages() {
    let (space, mut ports, mut psets, mut threads, mut acts) = setup();
    let mine = vec![msg(1, 1, 8), msg(1, 2, 8), msg(1, 3, 8)];
    ports[1].ip_messages.imq_messages = mine.clone();
    psets[1].ips_messages.imq_messages = vec![msg(2, 9, 8)];
    assert_eq!(mach_port_move_member(&space, &mut ports, &mut psets, &mut threads, &mut acts, 0x10, 0x30), KERN_SUCCESS);
    assert_eq!(psets[1].ips_messages.imq_messages.len(), 4);
    assert_eq!(mach_port_move_member(&space, &mut ports, &mut psets, &mut threads, &mut acts, 0x10, 0), KERN_SUCCESS);
    assert_eq!(ports[1].ip_messages.imq_messages, mine);
    assert_eq!(psets[1].ips_messages.imq_messages, vec![msg(2, 9, 8)]);
    assert_eq!(ports[1].ip_seqno, 0);
    // leaving a set that died meanwhile: not in a set
    assert_eq!(mach_port_move_member(&space, &mut ports, &mut psets, &mut threads, &mut acts, 0x10, 0x30), KERN_SUCCESS);
    psets[1].ips_active = false;
    assert_eq!(mach_port_move_member(&space, &mut ports, &mut psets, &mut threads, &mut acts, 0x10, 0), KERN_NOT_IN_SET);
    assert_eq!(ports[1].ip_pset, 0);
}

#[test]
fn test_mqueue_move_and_changed() {
    let mut threads = vec![idle(4), idle(64)];
    let mut acts = Vec::new();
    let mut src = ipc_mqueue { imq_messages: vec![msg(1, 1, 16), msg(2, 2, 16), msg(1, 3, 16)], imq_threads: Vec::new() };
    let mut dst = ipc_mqueue { imq_messages: Vec::new(), imq_threads: vec![0, 1] };
    // thread 0 is too small; thread 1 gets the first message with seqno 5
    let next = ipc_mqueue_move(&mut dst, &mut src, &mut threads, &mut acts, 5, 1);
    assert_eq!(next, 6);
    assert_eq!(src.imq_messages, vec![msg(2, 2, 16)]);
    assert_eq!(dst.imq_messages, vec![msg(1, 3, 16)]);
    assert!(dst.imq_threads.is_empty());
    assert_eq!((threads[0].ith_state, threads[0].ith_msize), (MACH_RCV_TOO_LARGE, 16));
    assert_eq!((threads[1].ith_kmsg, threads[1].ith_seqno), (msg(1, 1, 16), 5));
    let mut q = ipc_mqueue { imq_messages: Vec::new(), imq_threads: vec![1, 0] };
    ipc_mqueue_changed(&mut q, &mut threads, &mut acts, MACH_RCV_PORT_DIED);
    assert!(q.imq_threads.is_empty());
    assert_eq!((threads[0].ith_state, threads[1].ith_state), (MACH_RCV_PORT_DIED, MACH_RCV_PORT_DIED));
    assert_eq!(acts[2..].to_vec(), vec![IpcAction::WakeThread { thread: 1 }, IpcAction::WakeThread { thread: 0 }]);
}

#[test]
fn test_pset_destroy_and_clear_receiver() {
    let (_space, mut ports, mut psets, mut threads, mut acts) = setup();
    psets[1].ips_messages.imq_threads = vec![0];
    ipc_pset_destroy(&ports, &mut psets, &mut threads, &mut acts, 1);
    assert!(!psets[1].ips_active);
    assert_eq!(threads[0].ith_state, MACH_RCV_PORT_DIED);
    assert_eq!(acts, vec![IpcAction::WakeThread { thread: 0 }]);
    ports[2].ip_messages.imq_threads = vec![1];
    ports[2].ip_mscount = 3;
    ports[2].ip_seqno = 8;
    ipc_port_clear_receiver(&mut ports, &mut psets, &mut threads, &mut acts, 2);
    assert_eq!((ports[2].ip_mscount, ports[2].ip_seqno), (0, 0));
    assert_eq!(threads[1].ith_state, MACH_RCV_PORT_DIED);
    assert!(ports[2].ip_messages.imq_threads.is_empty());
}

#[test]
fn test_request_notification() {
    let (mut space, mut ports, _psets, _threads, mut acts) = setup();
    let sizes: Vec<u32> = vec![0];
    assert_eq!(
        mach_port_request_notification(&mut space, &mut ports, &mut acts, &sizes, 0x10, MACH_NOTIFY_PORT_DESTROYED, 0, IO_DEAD).0,
        KERN_INVALID_CAPABILITY
    );
    assert_eq!(
        mach_port_request_notification(&mut space, &mut ports, &mut acts, &sizes, 0x10, MACH_NOTIFY_PORT_DESTROYED, 1, 3).0,
        KERN_INVALID_VALUE
    );
    assert_eq!(
        mach_port_request_notification(&mut space, &mut ports, &mut acts, &sizes, 0x10, MACH_NOTIFY_PORT_DESTROYED, 0, 3),
        (KERN_SUCCESS, 0)
    );
    assert_eq!(ports[1].ip_pdrequest, 3);
    assert_eq!(
        mach_port_request_notification(&mut space, &mut ports, &mut acts, &sizes, 0x10, MACH_NOTIFY_PORT_DESTROYED, 0, 2),
        (KERN_SUCCESS, 3)
    );
    // no send rights and a make-send count reached: notified at once
    ports[1].ip_mscount = 4;
    assert_eq!(
        mach_port_request_notification(&mut space, &mut ports, &mut acts, &sizes, 0x10, MACH_NOTIFY_NO_SENDERS, 4, 3),
        (KERN_SUCCESS, 0)
    );
    assert_eq!(acts, vec![IpcAction::NotifyNoSenders { notify: 3, mscount: 4 }]);
    assert_eq!(ports[1].ip_nsrequest, 0);
    // a later count waits
    assert_eq!(
        mach_port_request_notification(&mut space, &mut ports, &mut acts, &sizes, 0x10, MACH_NOTIFY_NO_SENDERS, 5, 3),
        (KERN_SUCCESS, 0)
    );
    assert_eq!(ports[1].ip_nsrequest, 3);
    assert_eq!(
        mach_port_request_notification(&mut space, &mut ports, &mut acts, &sizes, 0x40, MACH_NOTIFY_NO_SENDERS, 0, 3).0,
        KERN_INVALID_RIGHT
    );
    assert_eq!(
        mach_port_request_notification(&mut space, &mut ports, &mut acts, &sizes, 0x77, MACH_NOTIFY_DEAD_NAME, 0, 3).0,
        KERN_INVALID_NAME
    );
    assert_eq!(mach_port_request_notification(&mut space, &mut ports, &mut acts, &sizes, 0x10, 0, 0, 3).0, KERN_INVALID_VALUE);
    assert_eq!(acts.len(), 1);
}

#[test]
fn test_nsrequest_with_senders() {
    let (_space, mut ports, _psets, _threads, mut acts) = setup();
    ports[1].ip_srights = 1;
    ports[1].ip_nsrequest = 2;
    assert_eq!(ipc_port_nsrequest(&mut ports, &mut acts, 1, 0, 3), 2);
    assert_eq!(ports[1].ip_nsrequest, 3);
    assert!(acts.is_empty());
}

#[test]
fn test_extract_then_insert() {
    let (mut space, mut ports, _psets, _threads, mut acts) = setup();
    assert_eq!(mach_port_extract_right(&mut space, &mut ports, &mut acts, 0x10, 0), (KERN_INVALID_VALUE, 0, 0));
    // make a send right from the receive right 0x10
    assert_eq!(
        mach_port_extract_right(&mut space, &mut ports, &mut acts, 0x10, MACH_MSG_TYPE_MAKE_SEND),
        (KERN_SUCCESS, 1, MACH_MSG_TYPE_PORT_SEND)
    );
    assert_eq!((ports[1].ip_srights, ports[1].ip_mscount, ports[1].ip_references), (1, 1, 2));
    // move the send right 0x40 out: the entry is freed
    assert_eq!(
        mach_port_extract_right(&mut space, &mut ports, &mut acts, 0x40, MACH_MSG_TYPE_MOVE_SEND),
        (KERN_SUCCESS, 3, MACH_MSG_TYPE_PORT_SEND)
    );
    assert_eq!(space.is_entries[4].ie_bits, 0);
    assert_eq!(mach_port_extract_right(&mut space, &mut ports, &mut acts, 0x40, MACH_MSG_TYPE_COPY_SEND).0, KERN_INVALID_NAME);
    // and insert it again under another name
    assert_eq!(mach_port_insert_right(&mut space, &mut ports, &mut acts, 0x41, 3, MACH_MSG_TYPE_PORT_SEND), KERN_SUCCESS);
    let e = space.is_entries.iter().find(|e| e.ie_name == 0x41).copied().unwrap();
    assert_eq!((e.ie_bits, e.ie_object), (MACH_PORT_TYPE_SEND | 1, 3));
    // the send right made from 0x10 goes back to 0x10
    assert_eq!(mach_port_insert_right(&mut space, &mut ports, &mut acts, 0x10, 1, MACH_MSG_TYPE_PORT_SEND), KERN_SUCCESS);
    assert_eq!(space.is_entries[0].ie_bits, MACH_PORT_TYPE_SEND_RECEIVE | 1);
    assert_eq!(mach_port_insert_right(&mut space, &mut ports, &mut acts, 0, 1, MACH_MSG_TYPE_PORT_SEND), KERN_INVALID_VALUE);
    assert_eq!(mach_port_insert_right(&mut space, &mut ports, &mut acts, 0x42, 1, MACH_MSG_TYPE_MAKE_SEND), KERN_INVALID_VALUE);
    assert_eq!(mach_port_insert_right(&mut space, &mut ports, &mut acts, 0x42, 0, MACH_MSG_TYPE_PORT_SEND), KERN_INVALID_CAPABILITY);
    assert_eq!(mach_port_insert_right(&mut space, &mut ports, &mut acts, 0x42, IO_DEAD, MACH_MSG_TYPE_PORT_SEND), KERN_INVALID_CAPABILITY);
}

#[test]
fn test_object_copyin_by_name() {
    let (mut space, mut ports, _psets, _threads, mut acts) = setup();
    assert_eq!(ipc_object_copyin(&mut space, &mut ports, &mut acts, 0x40, MACH_MSG_TYPE_COPY_SEND), (KERN_SUCCESS, 3));
    assert_eq!((ports[3].ip_srights, ports[3].ip_references), (2, 3));
    assert_eq!(space.is_entries[4].ie_bits, MACH_PORT_TYPE_SEND | 1);
    assert_eq!(ipc_object_copyin(&mut space, &mut ports, &mut acts, 0x30, MACH_MSG_TYPE_COPY_SEND).0, KERN_INVALID_RIGHT);
}

#[test]
fn test_set_ktype() {
    let (space, mut ports, _psets, _threads, _acts) = setup();
    assert_eq!(mach_port_set_ktype(0, &space, &mut ports, 0x10, MACH_PORT_RIGHT_RECEIVE, MACH_PORT_KTYPE_USER_DEVICE), KERN_INVALID_HOST);
    assert_eq!(mach_port_set_ktype(1, &space, &mut ports, 0x10, MACH_PORT_RIGHT_RECEIVE, 5), KERN_INVALID_ARGUMENT);
    assert_eq!(mach_port_set_ktype(1, &space, &mut ports, 0x10, MACH_PORT_RIGHT_RECEIVE, MACH_PORT_KTYPE_USER_DEVICE), KERN_SUCCESS);
    assert_eq!(ports[1].ip_kotype, IKOT_USER_DEVICE);
    assert_eq!(mach_port_set_ktype(1, &space, &mut ports, 0x10, MACH_PORT_RIGHT_RECEIVE, MACH_PORT_KTYPE_NONE), KERN_SUCCESS);
    assert_eq!(ports[1].ip_kotype, 0);
    ports[3].ip_kotype = IKOT_DEVICE;
    assert_eq!(mach_port_set_ktype(1, &space, &mut ports, 0x40, MACH_PORT_RIGHT_SEND, MACH_PORT_KTYPE_NONE), KERN_INVALID_ARGUMENT);
    assert_eq!(mach_port_set_ktype(1, &space, &mut ports, 0x40, MACH_PORT_RIGHT_RECEIVE, MACH_PORT_KTYPE_NONE), KERN_INVALID_RIGHT);
}
