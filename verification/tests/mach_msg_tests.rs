use gnumach::ipc_mqueue::{thread, MACH_RCV_TIMEOUT, MACH_SEND_TIMEOUT};
use gnumach::mach_msg::{
    mach_msg_interrupt, mach_msg_receive, mach_msg_receive_continue, mach_msg_receive_step, mach_msg_send,
    mach_msg_send_step, mach_msg_trap, mach_msg_trap_step, MsgAction, MsgEvent, MsgState, MACH_MSG_SIZE_MAX,
    MACH_RCV_LARGE, MACH_RCV_MSG, MACH_RCV_NOTIFY, MACH_SEND_CANCEL, MACH_SEND_MSG, MACH_SEND_NOTIFY,
};
use gnumach::mach_types::{
    mach_msg_header_t, MACH_MSG_SUCCESS, MACH_RCV_BODY_ERROR, MACH_RCV_INTERRUPTED, MACH_RCV_INVALID_NAME,
    MACH_RCV_INVALID_NOTIFY, MACH_RCV_IN_PROGRESS, MACH_RCV_TOO_LARGE, MACH_SEND_INVALID_DEST,
    MACH_SEND_INVALID_NOTIFY, MACH_SEND_TIMED_OUT, MACH_SEND_WILL_NOTIFY,
};

fn ok() -> MsgEvent {
    MsgEvent { mr: MACH_MSG_SUCCESS, size: 0, marequest: false }
}

fn fail(mr: i32) -> MsgEvent {
    MsgEvent { mr, size: 0, marequest: false }
}

fn got(size: u32) -> MsgEvent {
    MsgEvent { mr: MACH_MSG_SUCCESS, size, marequest: false }
}

fn send_run(st: &mut MsgState, evs: &[MsgEvent]) -> Vec<MsgAction> {
    evs.iter().map(|e| mach_msg_send_step(st, *e)).collect()
}

fn rcv_run(st: &mut MsgState, evs: &[MsgEvent]) -> Vec<MsgAction> {
    evs.iter().map(|e| mach_msg_receive_step(st, *e)).collect()
}

#[test]
fn msg_send_copies_in_and_queues() {
    let (mut st, a) = mach_msg_send(MACH_SEND_MSG | MACH_SEND_TIMEOUT, 64, 7, 0);
    assert_eq!(a, MsgAction::GetKmsg { size: 64 });
    assert_eq!(
        send_run(&mut st, &[ok(), ok(), ok()]),
        vec![
            MsgAction::CopyIn { notify: 0 },
            MsgAction::Send { option: MACH_SEND_TIMEOUT, time_out: 7 },
            MsgAction::Return { mr: MACH_MSG_SUCCESS },
        ]
    );
}

#[test]
fn msg_send_copyin_failure_frees_the_message() {
    let (mut st, _) = mach_msg_send(MACH_SEND_MSG, 64, 0, 0);
    assert_eq!(
        send_run(&mut st, &[ok(), fail(MACH_SEND_INVALID_DEST), ok()]),
        vec![MsgAction::CopyIn { notify: 0 }, MsgAction::FreeKmsg, MsgAction::Return { mr: MACH_SEND_INVALID_DEST }]
    );
}

#[test]
fn msg_send_cancel_needs_a_notify_name() {
    let (mut st, _) = mach_msg_send(MACH_SEND_MSG | MACH_SEND_CANCEL, 64, 0, 0);
    assert_eq!(
        send_run(&mut st, &[ok(), ok()]),
        vec![MsgAction::FreeKmsg, MsgAction::Return { mr: MACH_SEND_INVALID_NOTIFY }]
    );
    let (mut st, _) = mach_msg_send(MACH_SEND_MSG | MACH_SEND_CANCEL, 64, 0, 0x33);
    assert_eq!(send_run(&mut st, &[ok()]), vec![MsgAction::CopyIn { notify: 0x33 }]);
}

#[test]
fn msg_send_notify_makes_a_request_when_full() {
    let (mut st, _) = mach_msg_send(MACH_SEND_MSG | MACH_SEND_NOTIFY, 64, 0, 0x33);
    assert_eq!(
        send_run(&mut st, &[ok(), ok(), fail(MACH_SEND_TIMED_OUT), ok(), ok()]),
        vec![
            MsgAction::CopyIn { notify: 0 },
            MsgAction::Send { option: MACH_SEND_TIMEOUT, time_out: 0 },
            MsgAction::CreateMarequest { notify: 0x33 },
            MsgAction::SendAlways,
            MsgAction::Return { mr: MACH_SEND_WILL_NOTIFY },
        ]
    );
}

#[test]
fn msg_send_failure_gives_the_message_back() {
    let (mut st, _) = mach_msg_send(MACH_SEND_MSG | MACH_SEND_TIMEOUT, 64, 0, 0);
    assert_eq!(
        send_run(&mut st, &[ok(), ok(), fail(MACH_SEND_TIMED_OUT), fail(0x200), ok()]),
        vec![
            MsgAction::CopyIn { notify: 0 },
            MsgAction::Send { option: MACH_SEND_TIMEOUT, time_out: 0 },
            MsgAction::CopyoutPseudo,
            MsgAction::PutKmsg { whole: true },
            MsgAction::Return { mr: MACH_SEND_TIMED_OUT | 0x200 },
        ]
    );
}

#[test]
fn msg_receive_copies_out() {
    let (mut st, a) = mach_msg_receive(MACH_RCV_MSG | MACH_RCV_TIMEOUT, 100, 0x10, 5, 0);
    assert_eq!(a, MsgAction::FindQueue { name: 0x10 });
    assert_eq!(
        rcv_run(&mut st, &[ok(), got(40), ok(), ok(), ok()]),
        vec![
            MsgAction::Receive { option: MACH_RCV_TIMEOUT, max_size: MACH_MSG_SIZE_MAX, time_out: 5 },
            MsgAction::ReleaseObject,
            MsgAction::CopyOut { notify: 0 },
            MsgAction::PutKmsg { whole: true },
            MsgAction::Return { mr: MACH_MSG_SUCCESS },
        ]
    );
    assert_eq!(
        mach_msg_receive_continue(&st),
        MsgAction::Receive { option: MACH_RCV_TIMEOUT, max_size: MACH_MSG_SIZE_MAX, time_out: 5 }
    );
}

#[test]
fn msg_receive_too_large_takes_the_message() {
    let (mut st, _) = mach_msg_receive(MACH_RCV_MSG, 100, 0x10, 0, 0);
    assert_eq!(
        rcv_run(&mut st, &[ok(), got(400), ok(), ok(), ok()]),
        vec![
            MsgAction::Receive { option: 0, max_size: MACH_MSG_SIZE_MAX, time_out: 0 },
            MsgAction::ReleaseObject,
            MsgAction::CopyoutDest,
            MsgAction::PutKmsg { whole: false },
            MsgAction::Return { mr: MACH_RCV_TOO_LARGE },
        ]
    );
}

#[test]
fn msg_receive_large_leaves_it_queued() {
    let (mut st, _) = mach_msg_receive(MACH_RCV_MSG | MACH_RCV_LARGE, 100, 0x10, 0, 0);
    assert_eq!(
        rcv_run(&mut st, &[ok(), MsgEvent { mr: MACH_RCV_TOO_LARGE, size: 400, marequest: false }, ok(), ok()]),
        vec![
            MsgAction::Receive { option: 0, max_size: 100, time_out: 0 },
            MsgAction::ReleaseObject,
            MsgAction::ReportSize { size: 400 },
            MsgAction::Return { mr: MACH_RCV_TOO_LARGE },
        ]
    );
}

#[test]
fn msg_receive_errors() {
    let (mut st, _) = mach_msg_receive(MACH_RCV_MSG, 100, 0x99, 0, 0);
    assert_eq!(rcv_run(&mut st, &[fail(MACH_RCV_INVALID_NAME)]), vec![MsgAction::Return { mr: MACH_RCV_INVALID_NAME }]);
    let (mut st, _) = mach_msg_receive(MACH_RCV_MSG | MACH_RCV_NOTIFY, 100, 0x10, 0, 0);
    assert_eq!(
        rcv_run(&mut st, &[ok(), got(40), ok(), ok(), ok()])[2..],
        [MsgAction::CopyoutDest, MsgAction::PutKmsg { whole: false }, MsgAction::Return { mr: MACH_RCV_INVALID_NOTIFY }]
    );
    let (mut st, _) = mach_msg_receive(MACH_RCV_MSG, 100, 0x10, 0, 0);
    assert_eq!(
        rcv_run(&mut st, &[ok(), got(40), ok(), fail(MACH_RCV_BODY_ERROR), ok()])[3..],
        [MsgAction::PutKmsg { whole: true }, MsgAction::Return { mr: MACH_RCV_BODY_ERROR }]
    );
}

#[test]
fn msg_trap_combined_sends_then_receives() {
    let (mut st, a) = mach_msg_trap(MACH_SEND_MSG | MACH_RCV_MSG, 64, 100, 0x10, 0, 0);
    assert_eq!(a, MsgAction::GetKmsg { size: 64 });
    let evs = [ok(), ok(), ok(), ok(), got(40), ok(), ok(), ok()];
    let acts: Vec<MsgAction> = evs.iter().map(|e| mach_msg_trap_step(&mut st, *e)).collect();
    assert_eq!(
        acts,
        vec![
            MsgAction::CopyIn { notify: 0 },
            MsgAction::Send { option: 0, time_out: 0 },
            MsgAction::FindQueue { name: 0x10 },
            MsgAction::Receive { option: 0, max_size: MACH_MSG_SIZE_MAX, time_out: 0 },
            MsgAction::ReleaseObject,
            MsgAction::CopyOut { notify: 0 },
            MsgAction::PutKmsg { whole: true },
            MsgAction::Return { mr: MACH_MSG_SUCCESS },
        ]
    );
}

#[test]
fn msg_trap_stops_after_a_failed_send() {
    let (mut st, _) = mach_msg_trap(MACH_SEND_MSG | MACH_RCV_MSG, 64, 100, 0x10, 0, 0);
    let acts: Vec<MsgAction> = [ok(), fail(MACH_SEND_INVALID_DEST), ok()].iter().map(|e| mach_msg_trap_step(&mut st, *e)).collect();
    assert_eq!(acts[2], MsgAction::Return { mr: MACH_SEND_INVALID_DEST });
    let (_, a) = mach_msg_trap(0, 64, 100, 0x10, 0, 0);
    assert_eq!(a, MsgAction::Return { mr: MACH_MSG_SUCCESS });
    let (_, a) = mach_msg_trap(MACH_RCV_MSG, 0, 100, 0x10, 0, 0);
    assert_eq!(a, MsgAction::FindQueue { name: 0x10 });
}

#[test]
fn msg_interrupt_takes_a_receiver_off_its_queue() {
    let h = mach_msg_header_t { msgh_bits: 0, msgh_size: 0, msgh_remote_port: 0, msgh_local_port: 0, msgh_seqno: 0, msgh_id: 0 };
    let mut threads = vec![
        thread { ith_state: MACH_RCV_IN_PROGRESS, ith_msize: 0, ith_kmsg: h, ith_seqno: 0 },
        thread { ith_state: MACH_MSG_SUCCESS, ith_msize: 0, ith_kmsg: h, ith_seqno: 0 },
    ];
    let mut queue = vec![1, 0];
    assert!(!mach_msg_interrupt(&mut queue, &mut threads, 1));
    assert_eq!(queue, vec![1, 0]);
    assert!(mach_msg_interrupt(&mut queue, &mut threads, 0));
    assert_eq!(queue, vec![1]);
    assert_eq!(threads[0].ith_state, MACH_RCV_INTERRUPTED);
}

#[test]
fn msg_receive_destroys_the_request_of_the_message_taken() {
    let (mut st, _) = mach_msg_receive(MACH_RCV_MSG, 100, 0x10, 0, 0);
    let taken = MsgEvent { mr: MACH_MSG_SUCCESS, size: 40, marequest: true };
    assert_eq!(
        rcv_run(&mut st, &[ok(), taken, ok(), ok()]),
        vec![
            MsgAction::Receive { option: 0, max_size: MACH_MSG_SIZE_MAX, time_out: 0 },
            MsgAction::DestroyMarequest,
            MsgAction::ReleaseObject,
            MsgAction::CopyOut { notify: 0 },
        ]
    );
}
