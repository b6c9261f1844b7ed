use gnumach::ipc_mqueue::{
    ipc_mqueue_receive, ipc_mqueue_receive_resume, ipc_mqueue_send, ipc_mqueue_send_resume, thread, MqueueId,
    RcvStep, SendStep, MACH_RCV_TIMEOUT, MACH_SEND_ALWAYS, MACH_SEND_TIMEOUT, THREAD_INTERRUPTED, THREAD_TIMED_OUT,
};
use gnumach::ipc_port::{ipc_port_destroy, ipc_port_timestamp};
use gnumach::ipc_right::{ipc_mqueue, ipc_port, ipc_pset, DnRequest, IpcAction};
use gnumach::mach_types::{
    mach_msg_header_t, MACH_MSGH_BITS, MACH_MSGH_BITS_CIRCULAR, MACH_MSG_SUCCESS, MACH_MSG_TYPE_PORT_SEND,
    MACH_MSG_TYPE_PORT_SEND_ONCE, MACH_RCV_INTERRUPTED, MACH_RCV_IN_PROGRESS, MACH_RCV_TIMED_OUT, MACH_RCV_TOO_LARGE,
    MACH_SEND_INTERRUPTED, MACH_SEND_IN_PROGRESS, MACH_SEND_TIMED_OUT,
};

const KERNEL: u32 = 1;

fn port(qlimit: u32) -> ipc_port {
    ipc_port {
        ip_active: true,
        ip_references: 2,
        ip_srights: 1,
        ip_sorights: 0,
        ip_mscount: 0,
        ip_receiver_name: 0x10,
        ip_receiver: 4,
        ip_destination: 0,
        ip_nsrequest: 0,
        ip_pdrequest: 0,
        ip_protected_payload: false,
        ip_payload: 0,
        ip_timestamp: 0,
        ip_dnrequests: Vec::new(),
        ip_kotype: 0,
        ip_pset: 0,
        ip_msgcount: 0,
        ip_qlimit: qlimit,
        ip_seqno: 7,
        ip_blocked: Vec::new(),
        ip_messages: ipc_mqueue { imq_messages: Vec::new(), imq_threads: Vec::new() },
    }
}

fn msg(id: i32, size: u32) -> mach_msg_header_t {
    mach_msg_header_t {
        msgh_bits: MACH_MSGH_BITS(MACH_MSG_TYPE_PORT_SEND, 0),
        msgh_size: size,
        msgh_remote_port: 1,
        msgh_local_port: 0,
        msgh_seqno: 0,
        msgh_id: id,
    }
}

fn idle() -> thread {
    thread { ith_state: MACH_MSG_SUCCESS, ith_msize: 0, ith_kmsg: msg(0, 0), ith_seqno: 0 }
}

fn setup(qlimit: u32) -> (Vec<ipc_port>, Vec<ipc_pset>, Vec<thread>, Vec<IpcAction>) {
    (vec![port(1), port(qlimit)], Vec::new(), vec![idle(), idle(), idle()], Vec::new())
}

#[test]
fn test_send_then_receive_in_order() {
    let (mut ports, mut psets, mut threads, mut acts) = setup(5);
    for id in 1..3 {
        assert_eq!(
            ipc_mqueue_send(&mut ports, &mut psets, &mut threads, &mut acts, msg(id, 32), 0, 0, 0, KERNEL),
            SendStep::Done { mr: MACH_MSG_SUCCESS }
        );
    }
    assert_eq!(ports[1].ip_msgcount, 2);
    let q = MqueueId::Port { port: 1 };
    assert_eq!(
        ipc_mqueue_receive(&mut ports, &mut psets, &mut threads, &mut acts, q, 0, 64, 0, 1),
        RcvStep::Got { kmsg: msg(1, 32), seqno: 7 }
    );
    assert_eq!(
        ipc_mqueue_receive(&mut ports, &mut psets, &mut threads, &mut acts, q, 0, 64, 0, 1),
        RcvStep::Got { kmsg: msg(2, 32), seqno: 8 }
    );
    assert_eq!((ports[1].ip_msgcount, ports[1].ip_seqno), (0, 9));
    // an empty queue: out of time at once, or block
    assert_eq!(
        ipc_mqueue_receive(&mut ports, &mut psets, &mut threads, &mut acts, q, MACH_RCV_TIMEOUT, 64, 0, 1),
        RcvStep::Fail { mr: MACH_RCV_TIMED_OUT, size: 0 }
    );
    assert_eq!(
        ipc_mqueue_receive(&mut ports, &mut psets, &mut threads, &mut acts, q, 0, 64, 0, 1),
        RcvStep::Block { timed: false, time_out: 0 }
    );
    assert_eq!(threads[1].ith_state, MACH_RCV_IN_PROGRESS);
    assert!(acts.is_empty());
}

#[test]
fn test_handoff_to_waiting_receivers() {
    let (mut ports, mut psets, mut threads, mut acts) = setup(5);
    let q = MqueueId::Port { port: 1 };
    // thread 1 takes at most 16 bytes, thread 2 at most 64
    assert_eq!(
        ipc_mqueue_receive(&mut ports, &mut psets, &mut threads, &mut acts, q, 0, 16, 0, 1),
        RcvStep::Block { timed: false, time_out: 0 }
    );
    assert_eq!(
        ipc_mqueue_receive(&mut ports, &mut psets, &mut threads, &mut acts, q, MACH_RCV_TIMEOUT, 64, 50, 2),
        RcvStep::Block { timed: true, time_out: 50 }
    );
    assert_eq!(
        ipc_mqueue_send(&mut ports, &mut psets, &mut threads, &mut acts, msg(5, 32), 0, 0, 0, KERNEL),
        SendStep::Done { mr: MACH_MSG_SUCCESS }
    );
    assert_eq!(acts, vec![IpcAction::WakeThread { thread: 1 }, IpcAction::WakeThread { thread: 2 }]);
    assert_eq!((threads[1].ith_state, threads[1].ith_msize), (MACH_RCV_TOO_LARGE, 32));
    assert_eq!((threads[2].ith_state, threads[2].ith_kmsg, threads[2].ith_seqno), (MACH_MSG_SUCCESS, msg(5, 32), 7));
    assert!(ports[1].ip_messages.imq_messages.is_empty());
    // the woken receivers pick up what they were told
    assert_eq!(
        ipc_mqueue_receive_resume(&mut ports, &mut psets, &mut threads, &mut acts, q, 0, 16, 0, 1, 0),
        RcvStep::Fail { mr: MACH_RCV_TOO_LARGE, size: 32 }
    );
    assert_eq!(
        ipc_mqueue_receive_resume(&mut ports, &mut psets, &mut threads, &mut acts, q, MACH_RCV_TIMEOUT, 64, 50, 2, 0),
        RcvStep::Got { kmsg: msg(5, 32), seqno: 7 }
    );
    assert_eq!((ports[1].ip_msgcount, ports[1].ip_seqno), (0, 8));
}

#[test]
fn test_receive_too_large_and_interrupted() {
    let (mut ports, mut psets, mut threads, mut acts) = setup(5);
    let q = MqueueId::Port { port: 1 };
    ipc_mqueue_send(&mut ports, &mut psets, &mut threads, &mut acts, msg(1, 100), 0, 0, 0, KERNEL);
    assert_eq!(
        ipc_mqueue_receive(&mut ports, &mut psets, &mut threads, &mut acts, q, 0, 64, 0, 1),
        RcvStep::Fail { mr: MACH_RCV_TOO_LARGE, size: 100 }
    );
    assert_eq!(ports[1].ip_messages.imq_messages.len(), 1);
    let (mut ports, mut psets, mut threads, mut acts) = setup(5);
    ipc_mqueue_receive(&mut ports, &mut psets, &mut threads, &mut acts, q, 0, 64, 0, 1);
    assert_eq!(
        ipc_mqueue_receive_resume(&mut ports, &mut psets, &mut threads, &mut acts, q, 0, 64, 0, 1, THREAD_INTERRUPTED),
        RcvStep::Fail { mr: MACH_RCV_INTERRUPTED, size: 0 }
    );
    assert!(ports[1].ip_messages.imq_threads.is_empty());
}

#[test]
fn test_sender_blocks_when_full() {
    let (mut ports, mut psets, mut threads, mut acts) = setup(1);
    let q = MqueueId::Port { port: 1 };
    ipc_mqueue_send(&mut ports, &mut psets, &mut threads, &mut acts, msg(1, 8), 0, 0, 0, KERNEL);
    // full: a timed send with no time left fails, a plain send blocks
    assert_eq!(
        ipc_mqueue_send(&mut ports, &mut psets, &mut threads, &mut acts, msg(2, 8), MACH_SEND_TIMEOUT, 0, 2, KERNEL),
        SendStep::Done { mr: MACH_SEND_TIMED_OUT }
    );
    assert_eq!(
        ipc_mqueue_send(&mut ports, &mut psets, &mut threads, &mut acts, msg(2, 8), 0, 0, 2, KERNEL),
        SendStep::Block { timed: false, time_out: 0 }
    );
    assert_eq!((threads[2].ith_state, ports[1].ip_blocked.clone()), (MACH_SEND_IN_PROGRESS, vec![2]));
    // a kernel send and a send-once message never block
    assert_eq!(
        ipc_mqueue_send(&mut ports, &mut psets, &mut threads, &mut acts, msg(3, 8), MACH_SEND_ALWAYS, 0, 0, KERNEL),
        SendStep::Done { mr: MACH_MSG_SUCCESS }
    );
    let mut once = msg(4, 8);
    once.msgh_bits = MACH_MSGH_BITS(MACH_MSG_TYPE_PORT_SEND_ONCE, 0);
    assert_eq!(
        ipc_mqueue_send(&mut ports, &mut psets, &mut threads, &mut acts, once, 0, 0, 0, KERNEL),
        SendStep::Done { mr: MACH_MSG_SUCCESS }
    );
    assert_eq!(ports[1].ip_msgcount, 3);
    // receiving brings the count under the limit only at the last message
    for _ in 0..3 {
        ipc_mqueue_receive(&mut ports, &mut psets, &mut threads, &mut acts, q, 0, 64, 0, 1);
    }
    assert_eq!(acts, vec![IpcAction::WakeThread { thread: 2 }]);
    assert_eq!(threads[2].ith_state, MACH_MSG_SUCCESS);
    // the woken sender gets its message through
    assert_eq!(
        ipc_mqueue_send_resume(&mut ports, &mut psets, &mut threads, &mut acts, msg(2, 8), 0, 0, 2, 0),
        SendStep::Done { mr: MACH_MSG_SUCCESS }
    );
    assert_eq!(ports[1].ip_messages.imq_messages, vec![msg(2, 8)]);
}

#[test]
fn test_blocked_sender_interrupted_or_timed_out() {
    let (mut ports, mut psets, mut threads, mut acts) = setup(1);
    ipc_mqueue_send(&mut ports, &mut psets, &mut threads, &mut acts, msg(1, 8), 0, 0, 0, KERNEL);
    ipc_mqueue_send(&mut ports, &mut psets, &mut threads, &mut acts, msg(2, 8), 0, 0, 2, KERNEL);
    assert_eq!(
        ipc_mqueue_send_resume(&mut ports, &mut psets, &mut threads, &mut acts, msg(2, 8), 0, 0, 2, THREAD_INTERRUPTED),
        SendStep::Done { mr: MACH_SEND_INTERRUPTED }
    );
    assert!(ports[1].ip_blocked.is_empty());
    ipc_mqueue_send(&mut ports, &mut psets, &mut threads, &mut acts, msg(2, 8), MACH_SEND_TIMEOUT, 10, 2, KERNEL);
    assert_eq!(
        ipc_mqueue_send_resume(&mut ports, &mut psets, &mut threads, &mut acts, msg(2, 8), MACH_SEND_TIMEOUT, 10, 2, THREAD_TIMED_OUT),
        SendStep::Done { mr: MACH_SEND_TIMED_OUT }
    );
}

#[test]
fn test_send_to_dead_circular_kernel_and_set() {
    let (mut ports, mut psets, mut threads, mut acts) = setup(5);
    // a kernel port goes to the object server
    ports[1].ip_receiver = KERNEL;
    ipc_mqueue_send(&mut ports, &mut psets, &mut threads, &mut acts, msg(1, 8), 0, 0, 0, KERNEL);
    assert_eq!(acts, vec![IpcAction::KernelServer { msg: msg(1, 8) }]);
    // a circular message is destroyed
    ports[1].ip_receiver = 4;
    let mut circ = msg(2, 8);
    circ.msgh_bits |= MACH_MSGH_BITS_CIRCULAR;
    ipc_mqueue_send(&mut ports, &mut psets, &mut threads, &mut acts, circ, 0, 0, 0, KERNEL);
    assert_eq!(acts[1], IpcAction::DestroyKmsg { msg: circ });
    // a dead port drops the message's reference and destroys it
    ports[1].ip_active = false;
    ipc_mqueue_send(&mut ports, &mut psets, &mut threads, &mut acts, msg(3, 8), 0, 0, 0, KERNEL);
    let mut dropped = msg(3, 8);
    dropped.msgh_remote_port = 0;
    assert_eq!(acts[2], IpcAction::DestroyKmsg { msg: dropped });
    assert_eq!(ports[1].ip_references, 1);
    // a port in a set: the message goes to the set's queue
    let (mut ports, _, mut threads, mut acts) = setup(5);
    let mut psets = vec![
        ipc_pset { ips_active: true, ips_local_name: 0, ips_messages: ipc_mqueue { imq_messages: Vec::new(), imq_threads: Vec::new() } },
        ipc_pset { ips_active: true, ips_local_name: 0x30, ips_messages: ipc_mqueue { imq_messages: Vec::new(), imq_threads: Vec::new() } },
    ];
    ports[1].ip_pset = 1;
    ipc_mqueue_send(&mut ports, &mut psets, &mut threads, &mut acts, msg(4, 8), 0, 0, 0, KERNEL);
    assert_eq!(psets[1].ips_messages.imq_messages, vec![msg(4, 8)]);
    assert_eq!(
        ipc_mqueue_receive(&mut ports, &mut psets, &mut threads, &mut acts, MqueueId::Pset { pset: 1 }, 0, 64, 0, 1),
        RcvStep::Got { kmsg: msg(4, 8), seqno: 7 }
    );
}

#[test]
fn test_port_destroy_kills_port() {
    let (mut ports, psets, mut threads, mut acts) = setup(5);
    let mut counter: u32 = 40;
    ports[1].ip_references = 3;
    ports[1].ip_nsrequest = 5;
    ports[1].ip_blocked = vec![2];
    ports[1].ip_msgcount = 1;
    ports[1].ip_seqno = 0;
    ports[1].ip_messages.imq_messages = vec![msg(9, 8)];
    ports[1].ip_dnrequests = vec![
        DnRequest { name: 0, notify: 2 },
        DnRequest { name: 0x60, notify: 7 },
        DnRequest { name: 0, notify: 0 },
    ];
    ipc_port_destroy(&mut ports, &psets, &mut threads, &mut acts, 1, &mut counter);
    assert!(!ports[1].ip_active);
    assert_eq!((ports[1].ip_timestamp, counter, ports[1].ip_references), (40, 41, 1));
    assert!(ports[1].ip_dnrequests.is_empty() && ports[1].ip_blocked.is_empty());
    let mut dropped = msg(9, 8);
    dropped.msgh_remote_port = 0;
    assert_eq!(
        acts,
        vec![
            IpcAction::WakeThread { thread: 2 },
            IpcAction::NotifySendOnce { port: 5 },
            IpcAction::DestroyKmsg { msg: dropped },
            IpcAction::NotifyDeadName { notify: 7, name: 0x60 },
        ]
    );
    assert_eq!(threads[2].ith_state, MACH_MSG_SUCCESS);
}

#[test]
fn test_port_destroy_hands_to_backup() {
    let (mut ports, psets, mut threads, mut acts) = setup(5);
    let mut counter: u32 = 40;
    ports.push(port(5));
    ports[2].ip_sorights = 1;
    ports[2].ip_references = 1;
    ports[1].ip_seqno = 0;
    ports[1].ip_pdrequest = 2;
    ipc_port_destroy(&mut ports, &psets, &mut threads, &mut acts, 1, &mut counter);
    assert!(ports[1].ip_active);
    assert_eq!((ports[1].ip_receiver_name, ports[1].ip_destination, ports[1].ip_pdrequest), (0, 2, 0));
    assert_eq!(ports[2].ip_references, 2);
    assert_eq!(acts, vec![IpcAction::NotifyPortDestroyed { notify: 2, port: 1 }]);
    assert_eq!(counter, 40);
    // a backup that is the port itself would make a loop: the port dies
    let (mut ports, psets, mut threads, mut acts) = setup(5);
    ports[1].ip_seqno = 0;
    ports[1].ip_references = 3;
    ports[1].ip_sorights = 1;
    ports[1].ip_pdrequest = 1;
    ipc_port_destroy(&mut ports, &psets, &mut threads, &mut acts, 1, &mut counter);
    assert!(!ports[1].ip_active);
    assert_eq!((ports[1].ip_sorights, ports[1].ip_references), (0, 1));
    assert!(acts.is_empty());
}

#[test]
fn test_port_timestamp_wraps() {
    let mut counter: u32 = u32::MAX;
    assert_eq!(ipc_port_timestamp(&mut counter), u32::MAX);
    assert_eq!(counter, 0);
}
