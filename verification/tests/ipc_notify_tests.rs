use gnumach::ipc_mqueue::{
    ipc_kmsg_dequeue, ipc_kmsg_enqueue, ipc_kmsg_queue_next, ipc_kmsg_rmqueue, ipc_mqueue_copyin, ipc_thread_dequeue,
    ipc_thread_enqueue, ipc_thread_rmqueue, thread, MqueueId,
};
use gnumach::ipc_notify::{
    ipc_notify_dead_name, ipc_notify_init, ipc_notify_msg_accepted, ipc_notify_no_senders, ipc_notify_port_deleted,
    ipc_notify_port_destroyed, ipc_notify_send_once,
};
use gnumach::ipc_object::{ipc_port_copyout_send, ipc_port_make_send, ipc_port_make_sonce};
use gnumach::ipc_right::{ipc_entry, ipc_mqueue, ipc_port, ipc_pset, ipc_space, DnRequest, IpcAction, IO_DEAD};
use gnumach::mach_port::{mach_port_dnrequest_info, mach_port_get_srights};
use gnumach::mach_types::{
    mach_msg_header_t, KERN_INVALID_RIGHT, MACH_MSGH_BITS_COMPLEX, MACH_MSG_SUCCESS, MACH_MSG_TYPE_PORT_SEND_ONCE,
    MACH_NOTIFY_DEAD_NAME, MACH_NOTIFY_MSG_ACCEPTED, MACH_NOTIFY_NO_SENDERS, MACH_NOTIFY_PORT_DELETED,
    MACH_NOTIFY_PORT_DESTROYED, MACH_NOTIFY_SEND_ONCE, MACH_PORT_NAME_DEAD, MACH_PORT_TYPE_PORT_SET,
    MACH_PORT_TYPE_RECEIVE, MACH_PORT_TYPE_SEND, MACH_RCV_INVALID_NAME, MACH_RCV_IN_SET,
};

const KERNEL: u32 = 1;

fn port(receiver_name: u32, receiver: u32) -> ipc_port {
    ipc_port {
        ip_active: true,
        ip_references: 2,
        ip_srights: 1,
        ip_sorights: 1,
        ip_mscount: 1,
        ip_receiver_name: receiver_name,
        ip_receiver: receiver,
        ip_destination: 0,
        ip_nsrequest: 0,
        ip_pdrequest: 0,
        ip_protected_payload: false,
        ip_payload: 0,
        ip_timestamp: 0,
        ip_dnrequests: Vec::new(),
        ip_kotype: 0,
        ip_pset: 0,
        ip_msgcount: 0,
        ip_qlimit: 5,
        ip_seqno: 0,
        ip_blocked: Vec::new(),
        ip_messages: ipc_mqueue { imq_messages: Vec::new(), imq_threads: Vec::new() },
    }
}

fn header(id: i32) -> mach_msg_header_t {
    mach_msg_header_t { msgh_bits: 0, msgh_size: 24, msgh_remote_port: 1, msgh_local_port: 0, msgh_seqno: 0, msgh_id: id }
}

fn idle() -> thread {
    thread { ith_state: MACH_MSG_SUCCESS, ith_msize: 0, ith_kmsg: header(0), ith_seqno: 0 }
}

fn pset(active: bool) -> ipc_pset {
    ipc_pset { ips_active: active, ips_local_name: 0x30, ips_messages: ipc_mqueue { imq_messages: Vec::new(), imq_threads: Vec::new() } }
}

#[test]
fn notify_init_fills_templates() {
    let t = ipc_notify_init();
    assert_eq!(t.port_deleted.not_header.msgh_bits, MACH_MSG_TYPE_PORT_SEND_ONCE);
    assert_eq!(t.port_deleted.not_header.msgh_size, 32);
    assert_eq!(t.port_deleted.not_header.msgh_id, MACH_NOTIFY_PORT_DELETED);
    assert_eq!(t.port_deleted.not_type.bits, 0x1001_200F);
    assert_eq!(t.msg_accepted.not_header.msgh_id, MACH_NOTIFY_MSG_ACCEPTED);
    assert_eq!(t.port_destroyed.not_header.msgh_bits, MACH_MSGH_BITS_COMPLEX | MACH_MSG_TYPE_PORT_SEND_ONCE);
    assert_eq!(t.port_destroyed.not_type.bits, 0x1001_2010);
    assert_eq!(t.no_senders.not_type.bits, 0x1001_2002);
    assert_eq!(t.no_senders.not_header.msgh_id, MACH_NOTIFY_NO_SENDERS);
    assert_eq!(t.send_once.not_header.msgh_size, 24);
    assert_eq!(t.send_once.not_header.msgh_id, MACH_NOTIFY_SEND_ONCE);
    assert_eq!(t.dead_name.not_header.msgh_id, MACH_NOTIFY_DEAD_NAME);
    assert_eq!(t.port_destroyed.not_header.msgh_id, MACH_NOTIFY_PORT_DESTROYED);
}

#[test]
fn notify_port_deleted_is_queued_on_the_port() {
    let t = ipc_notify_init();
    let mut ports = vec![port(0, 0), port(0x10, 4)];
    let mut psets: Vec<ipc_pset> = Vec::new();
    let mut threads = vec![idle()];
    let mut acts = Vec::new();
    let n = ipc_notify_port_deleted(&t, &mut ports, &mut psets, &mut threads, &mut acts, 1, 0x23, 0, KERNEL);
    assert_eq!(n.not_port, 0x23);
    assert_eq!(n.not_header.msgh_remote_port, 1);
    assert_eq!(n.not_header.msgh_id, MACH_NOTIFY_PORT_DELETED);
    assert_eq!(ports[1].ip_messages.imq_messages, vec![n.not_header]);
    assert_eq!(ports[1].ip_msgcount, 1);
}

#[test]
fn notify_sends_ignore_the_queue_limit() {
    let t = ipc_notify_init();
    let mut p = port(0x10, 4);
    p.ip_qlimit = 0;
    let mut ports = vec![port(0, 0), p];
    let mut psets: Vec<ipc_pset> = Vec::new();
    let mut threads = vec![idle()];
    let mut acts = Vec::new();
    let a = ipc_notify_msg_accepted(&t, &mut ports, &mut psets, &mut threads, &mut acts, 1, 0x40, 0, KERNEL);
    let b = ipc_notify_no_senders(&t, &mut ports, &mut psets, &mut threads, &mut acts, 1, 9, 0, KERNEL);
    let c = ipc_notify_send_once(&t, &mut ports, &mut psets, &mut threads, &mut acts, 1, 0, KERNEL);
    let d = ipc_notify_dead_name(&t, &mut ports, &mut psets, &mut threads, &mut acts, 1, 0x41, 0, KERNEL);
    let e = ipc_notify_port_destroyed(&t, &mut ports, &mut psets, &mut threads, &mut acts, 1, 7, 0, KERNEL);
    assert_eq!(a.not_port, 0x40);
    assert_eq!(b.not_count, 9);
    assert_eq!(d.not_port, 0x41);
    assert_eq!(e.not_port, 7);
    assert_eq!(
        ports[1].ip_messages.imq_messages,
        vec![a.not_header, b.not_header, c.not_header, d.not_header, e.not_header]
    );
    assert_eq!(ports[1].ip_msgcount, 5);
}

#[test]
fn notify_to_the_kernel_goes_to_the_server() {
    let t = ipc_notify_init();
    let mut ports = vec![port(0, 0), port(0x10, KERNEL)];
    let mut psets: Vec<ipc_pset> = Vec::new();
    let mut threads = vec![idle()];
    let mut acts = Vec::new();
    let n = ipc_notify_send_once(&t, &mut ports, &mut psets, &mut threads, &mut acts, 1, 0, KERNEL);
    assert_eq!(acts, vec![IpcAction::KernelServer { msg: n.not_header }]);
    assert!(ports[1].ip_messages.imq_messages.is_empty());
}

#[test]
fn make_send_and_sonce_count_rights() {
    let mut ports = vec![port(0, 0), port(0x10, 4)];
    assert_eq!(ipc_port_make_send(&mut ports, 1), 1);
    assert_eq!((ports[1].ip_mscount, ports[1].ip_srights, ports[1].ip_references), (2, 2, 3));
    assert_eq!(ipc_port_make_sonce(&mut ports, 1), 1);
    assert_eq!((ports[1].ip_sorights, ports[1].ip_references), (2, 4));
}

#[test]
fn copyout_send_reuses_or_reports() {
    let mut space = ipc_space {
        is_active: true,
        is_id: 4,
        is_entries: vec![ipc_entry { ie_name: 0x10, ie_bits: MACH_PORT_TYPE_RECEIVE, ie_object: 1, ie_request: 0 }],
    };
    let mut ports = vec![port(0, 0), port(0x10, 4), port(0x77, 9)];
    let mut acts = Vec::new();
    assert_eq!(ipc_port_copyout_send(&mut space, &mut ports, &mut acts, 0, 0x20), 0);
    assert_eq!(ipc_port_copyout_send(&mut space, &mut ports, &mut acts, IO_DEAD, 0x20), MACH_PORT_NAME_DEAD);
    // The space holds the receive right: the send right joins that entry.
    let name = ipc_port_copyout_send(&mut space, &mut ports, &mut acts, 1, 0x20);
    assert_eq!(name, 0x10);
    assert_eq!(space.is_entries[0].ie_bits, MACH_PORT_TYPE_RECEIVE | MACH_PORT_TYPE_SEND | 1);
    // A dead port: the right is released and the name is dead.
    ports[2].ip_active = false;
    let name = ipc_port_copyout_send(&mut space, &mut ports, &mut acts, 2, 0x20);
    assert_eq!(name, MACH_PORT_NAME_DEAD);
    assert_eq!(ports[2].ip_references, 1);
    // A dead space: the right is released and the name is null.
    space.is_active = false;
    let name = ipc_port_copyout_send(&mut space, &mut ports, &mut acts, 1, 0x20);
    assert_eq!(name, 0);
}

#[test]
fn get_srights_reads_the_count() {
    let space = ipc_space {
        is_active: true,
        is_id: 4,
        is_entries: vec![
            ipc_entry { ie_name: 0x10, ie_bits: MACH_PORT_TYPE_RECEIVE, ie_object: 1, ie_request: 0 },
            ipc_entry { ie_name: 0x23, ie_bits: MACH_PORT_TYPE_SEND | 1, ie_object: 2, ie_request: 0 },
        ],
    };
    let mut ports = vec![port(0, 0), port(0x10, 4), port(0x77, 9)];
    ports[1].ip_srights = 6;
    assert_eq!(mach_port_get_srights(&space, &ports, 0x10), Ok(6));
    assert_eq!(mach_port_get_srights(&space, &ports, 0x23), Err(KERN_INVALID_RIGHT));
}

#[test]
fn mqueue_copyin_finds_the_queue() {
    let space = ipc_space {
        is_active: true,
        is_id: 4,
        is_entries: vec![
            ipc_entry { ie_name: 0x10, ie_bits: MACH_PORT_TYPE_RECEIVE, ie_object: 1, ie_request: 0 },
            ipc_entry { ie_name: 0x11, ie_bits: MACH_PORT_TYPE_RECEIVE, ie_object: 2, ie_request: 0 },
            ipc_entry { ie_name: 0x30, ie_bits: MACH_PORT_TYPE_PORT_SET, ie_object: 1, ie_request: 0 },
            ipc_entry { ie_name: 0x23, ie_bits: MACH_PORT_TYPE_SEND | 1, ie_object: 3, ie_request: 0 },
        ],
    };
    let mut p2 = port(0x11, 4);
    p2.ip_pset = 1;
    let mut ports = vec![port(0, 0), port(0x10, 4), p2, port(0x77, 9)];
    let mut psets = vec![pset(false), pset(true)];
    let mut threads = vec![idle()];
    let mut acts = Vec::new();
    let r = ipc_mqueue_copyin(&space, &mut ports, &mut psets, &mut threads, &mut acts, 0x10);
    assert_eq!(r, Ok((MqueueId::Port { port: 1 }, 1)));
    assert_eq!(ports[1].ip_references, 3);
    let r = ipc_mqueue_copyin(&space, &mut ports, &mut psets, &mut threads, &mut acts, 0x11);
    assert_eq!(r, Err(MACH_RCV_IN_SET));
    let r = ipc_mqueue_copyin(&space, &mut ports, &mut psets, &mut threads, &mut acts, 0x30);
    assert_eq!(r, Ok((MqueueId::Pset { pset: 1 }, 1)));
    let r = ipc_mqueue_copyin(&space, &mut ports, &mut psets, &mut threads, &mut acts, 0x23);
    assert_eq!(r, Err(MACH_RCV_INVALID_NAME));
    let r = ipc_mqueue_copyin(&space, &mut ports, &mut psets, &mut threads, &mut acts, 0x99);
    assert_eq!(r, Err(MACH_RCV_INVALID_NAME));
    // A port in a dead set leaves it.
    psets[1].ips_active = false;
    let r = ipc_mqueue_copyin(&space, &mut ports, &mut psets, &mut threads, &mut acts, 0x11);
    assert_eq!(r, Ok((MqueueId::Port { port: 2 }, 2)));
    assert_eq!(ports[2].ip_pset, 0);
}

#[test]
fn kmsg_queue_is_first_in_first_out() {
    let mut q = Vec::new();
    assert_eq!(ipc_kmsg_dequeue(&mut q), None);
    ipc_kmsg_enqueue(&mut q, header(1));
    ipc_kmsg_enqueue(&mut q, header(2));
    ipc_kmsg_enqueue(&mut q, header(3));
    assert_eq!(ipc_kmsg_queue_next(&q, 0), Some(1));
    assert_eq!(ipc_kmsg_queue_next(&q, 2), None);
    assert_eq!(ipc_kmsg_rmqueue(&mut q, 1), header(2));
    assert_eq!(ipc_kmsg_dequeue(&mut q), Some(header(1)));
    assert_eq!(ipc_kmsg_dequeue(&mut q), Some(header(3)));
    assert!(q.is_empty());
}

#[test]
fn thread_queue_is_first_in_first_out() {
    let mut q = Vec::new();
    assert_eq!(ipc_thread_dequeue(&mut q), None);
    ipc_thread_enqueue(&mut q, 5);
    ipc_thread_enqueue(&mut q, 6);
    ipc_thread_enqueue(&mut q, 7);
    ipc_thread_rmqueue(&mut q, 6);
    assert_eq!(ipc_thread_dequeue(&mut q), Some(5));
    assert_eq!(q, vec![7]);
}

#[test]
fn dnrequest_info_counts_used_slots() {
    let space = ipc_space {
        is_active: true,
        is_id: 4,
        is_entries: vec![
            ipc_entry { ie_name: 0x10, ie_bits: MACH_PORT_TYPE_RECEIVE, ie_object: 1, ie_request: 0 },
            ipc_entry { ie_name: 0x11, ie_bits: MACH_PORT_TYPE_RECEIVE, ie_object: 2, ie_request: 0 },
        ],
    };
    let mut ports = vec![port(0, 0), port(0x10, 4), port(0x11, 4)];
    ports[1].ip_dnrequests = vec![
        DnRequest { name: 0, notify: 2 },
        DnRequest { name: 0x23, notify: 5 },
        DnRequest { name: 0, notify: 3 },
        DnRequest { name: 0x24, notify: 6 },
    ];
    assert_eq!(mach_port_dnrequest_info(&space, &ports, 0x10), Ok((4, 2)));
    assert_eq!(mach_port_dnrequest_info(&space, &ports, 0x11), Ok((0, 0)));
    assert_eq!(mach_port_dnrequest_info(&space, &ports, 0x99).is_err(), true);
}

#[test]
fn copyout_send_keeps_user_references_below_the_maximum() {
    let mut space = ipc_space {
        is_active: true,
        is_id: 4,
        is_entries: vec![ipc_entry { ie_name: 0x23, ie_bits: MACH_PORT_TYPE_SEND | 0xFFFE, ie_object: 2, ie_request: 0 }],
    };
    let mut ports = vec![port(0, 0), port(0x10, 4), port(0x77, 9)];
    ports[2].ip_srights = 2;
    ports[2].ip_references = 3;
    let mut acts = Vec::new();
    assert_eq!(ipc_port_copyout_send(&mut space, &mut ports, &mut acts, 2, 0x30), 0x23);
    assert_eq!(space.is_entries[0].ie_bits, MACH_PORT_TYPE_SEND | 0xFFFE);
    assert_eq!((ports[2].ip_srights, ports[2].ip_references), (1, 2));
}
