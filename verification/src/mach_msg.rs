//! The message traps: the decisions of `mach_msg_send`, `mach_msg_receive`
//! and the `mach_msg_trap` that dispatches to them, as step functions.
//!
//! The trap's work is done by the caller: copying the message in from and
//! out to user memory, the copy-in and copy-out of its rights, queueing,
//! blocking and waking.  A step takes the result of the work last asked
//! for (an `MsgEvent`) and says what to do next (an `MsgAction`); the trap
//! ends with `MsgAction::Return`.  A receive that blocks is taken up again
//! with `mach_msg_receive_continue`, which asks for the same receive.
//!
//! The combined send-and-receive option goes through the send, and then,
//! once the send succeeded, through the receive
//! (`law_combined_is_send_then_receive`).

use vstd::prelude::*;
use crate::ipc_mqueue::{ipc_thread_rmqueue, thread, without, MACH_RCV_TIMEOUT, MACH_SEND_TIMEOUT};
use crate::ipc_notify::MACH_MSG_TIMEOUT_NONE;
use crate::mach_types::{
    mach_msg_option_t, mach_msg_return_t, mach_msg_size_t, mach_msg_timeout_t, mach_port_name_t,
    MACH_MSG_SUCCESS, MACH_PORT_NAME_NULL, MACH_RCV_BODY_ERROR, MACH_RCV_INTERRUPTED, MACH_RCV_INVALID_NOTIFY,
    MACH_RCV_IN_PROGRESS, MACH_RCV_TOO_LARGE, MACH_SEND_INVALID_NOTIFY, MACH_SEND_TIMED_OUT,
    MACH_SEND_WILL_NOTIFY,
};

verus! {

/// `MACH_MSG_OPTION_NONE`.
pub const MACH_MSG_OPTION_NONE: mach_msg_option_t = 0;
/// `MACH_SEND_MSG`: send a message.
pub const MACH_SEND_MSG: mach_msg_option_t = 0x0000_0001;
/// `MACH_RCV_MSG`: receive a message.
pub const MACH_RCV_MSG: mach_msg_option_t = 0x0000_0002;
/// `MACH_SEND_CANCEL`: cancel a dead-name request of the notify name.
pub const MACH_SEND_CANCEL: mach_msg_option_t = 0x0000_0008;
/// `MACH_SEND_NOTIFY`: when the queue is full, queue the message anyway and
/// ask for a msg-accepted notification.
pub const MACH_SEND_NOTIFY: mach_msg_option_t = 0x0000_0020;
/// `MACH_RCV_NOTIFY`: the notify name takes the reply port's dead-name
/// request.
pub const MACH_RCV_NOTIFY: mach_msg_option_t = 0x0000_0200;
/// `MACH_RCV_LARGE`: a message too large stays queued and its size is
/// reported.
pub const MACH_RCV_LARGE: mach_msg_option_t = 0x0000_0800;
/// `MACH_MSG_SIZE_MAX`.
pub const MACH_MSG_SIZE_MAX: mach_msg_size_t = 0xFFFF_FFFF;
/// `MACH_MSG_MASK`: the bits of a return code that qualify it.
pub const MACH_MSG_MASK: mach_msg_return_t = 0x0000_3c00;

/// Where a trap stands.
#[derive(Clone, Copy, Debug, PartialEq, Eq, Structural)]
pub enum MsgPhase {
    /// The send asked for the message to be copied in from user memory.
    SendGet,
    /// The send asked for the message's rights to be copied in.
    SendCopyin,
    /// The send asked for the message to be queued; `notify` when it was
    /// sent with `MACH_SEND_NOTIFY`.
    SendQueue { notify: bool },
    /// The send asked for a msg-accepted request.
    SendMarequest,
    /// The send asked for the message to be queued regardless.
    SendAlways,
    /// The send failed with `mr` and asked for the header's rights to be
    /// copied out.
    SendPseudo { mr: mach_msg_return_t },
    /// The trap is over with `mr` once the work asked for is done.
    Finish { mr: mach_msg_return_t },
    /// The receive asked for the queue of the receive name.
    RcvQueue,
    /// The receive asked for a message (it may block and continue).
    RcvWait,
    /// The receive took a message of this size and asked for its
    /// msg-accepted request to be destroyed.
    RcvMarequest { size: mach_msg_size_t },
    /// The receive got `mr` (and the message's size) and asked for the
    /// reference to the queue's object to be released.
    RcvRelease { mr: mach_msg_return_t, size: mach_msg_size_t },
    /// The receive asked for the message's rights to be copied out.
    RcvCopyout,
    /// The receive failed with `mr` and asked for the destination alone to
    /// be copied out.
    RcvDest { mr: mach_msg_return_t },
    /// The receive asked for the whole message to be copied out to user
    /// memory; the trap returns what that gives.
    RcvPut,
}

/// A trap in progress: its parameters and where it stands.
#[derive(Clone, Copy, Debug, PartialEq, Eq, Structural)]
pub struct MsgState {
    pub option: mach_msg_option_t,
    pub send_size: mach_msg_size_t,
    pub rcv_size: mach_msg_size_t,
    pub rcv_name: mach_port_name_t,
    pub time_out: mach_msg_timeout_t,
    pub notify: mach_port_name_t,
    /// The trap goes on to receive once its send succeeded.
    pub then_receive: bool,
    pub phase: MsgPhase,
}

/// The result of the work last asked for: its return code, and after a
/// receive the size of the message received (or, for a message too large,
/// the size it needs) and whether it carries a msg-accepted request.
#[derive(Clone, Copy, Debug, PartialEq, Eq, Structural)]
pub struct MsgEvent {
    pub mr: mach_msg_return_t,
    pub size: mach_msg_size_t,
    pub marequest: bool,
}

/// The work a trap asks for next.
#[derive(Clone, Copy, Debug, PartialEq, Eq, Structural)]
pub enum MsgAction {
    /// `ipc_kmsg_get`: copy `size` bytes of message in from user memory.
    GetKmsg { size: mach_msg_size_t },
    /// `ipc_kmsg_copyin` with this notify name.
    CopyIn { notify: mach_port_name_t },
    /// `ipc_mqueue_send` with these options and timeout.
    Send { option: mach_msg_option_t, time_out: mach_msg_timeout_t },
    /// `ipc_marequest_create` for the message's destination.
    CreateMarequest { notify: mach_port_name_t },
    /// `ipc_mqueue_send` with `MACH_SEND_ALWAYS` (its result is not used).
    SendAlways,
    /// `ipc_kmsg_copyout_pseudo`: copy the header's rights back out.
    CopyoutPseudo,
    /// `ipc_kmsg_put`: copy the message (or its header alone) out to user
    /// memory, and free it.
    PutKmsg { whole: bool },
    /// Free the message.
    FreeKmsg,
    /// `ipc_mqueue_copyin`: find the queue of the receive name.
    FindQueue { name: mach_port_name_t },
    /// `ipc_mqueue_receive` with these options, largest size and timeout;
    /// the sequence number goes into the message received.
    Receive { option: mach_msg_option_t, max_size: mach_msg_size_t, time_out: mach_msg_timeout_t },
    /// `ipc_marequest_destroy` on the message's msg-accepted request.
    DestroyMarequest,
    /// Release the reference to the queue's object.
    ReleaseObject,
    /// Write the size the message needs into the user's header.
    ReportSize { size: mach_msg_size_t },
    /// `ipc_kmsg_copyout_dest`: copy out the destination alone.
    CopyoutDest,
    /// `ipc_kmsg_copyout` with this notify name.
    CopyOut { notify: mach_port_name_t },
    /// The trap returns `mr`.
    Return { mr: mach_msg_return_t },
}

// ─── The send ────────────────────────────────────────────────────

/// Whether the phase belongs to a send.
pub open spec fn in_send(p: MsgPhase) -> bool {
    p is SendGet || p is SendCopyin || p is SendQueue || p is SendMarequest || p is SendAlways || p is SendPseudo
}

/// The send of a trap with these parameters, asking for its message.
pub open spec fn send_start_spec(st: MsgState) -> (MsgState, MsgAction) {
    (MsgState { phase: MsgPhase::SendGet, ..st }, MsgAction::GetKmsg { size: st.send_size })
}

/// A failed send: its header's rights go back out, then the message.
pub open spec fn send_failed(st: MsgState, mr: i32) -> (MsgState, MsgAction) {
    (MsgState { phase: MsgPhase::SendPseudo { mr }, ..st }, MsgAction::CopyoutPseudo)
}

/// A send that failed before its message was queued: the message is freed
/// and the trap returns `mr`.
pub open spec fn send_dropped(st: MsgState, mr: i32) -> (MsgState, MsgAction) {
    (MsgState { phase: MsgPhase::Finish { mr }, ..st }, MsgAction::FreeKmsg)
}

/// The queue's answer to a send.
pub open spec fn send_queued(st: MsgState, mr: i32) -> (MsgState, MsgAction) {
    if mr == MACH_MSG_SUCCESS {
        (st, MsgAction::Return { mr })
    } else {
        send_failed(st, mr)
    }
}

/// `mach_msg_send`, one step: the message is copied in (a failure ends the
/// trap); with `MACH_SEND_CANCEL` its rights are copied in with the notify
/// name, which must not be null; it is queued, and with `MACH_SEND_NOTIFY`
/// a send that would time out makes a msg-accepted request instead and is
/// queued regardless (`MACH_SEND_WILL_NOTIFY`).  A failure after the
/// copy-in copies the header's rights back out, and the message goes back
/// to user memory, the result qualified by the copy-out's.
pub open spec fn send_step_spec(st: MsgState, ev: MsgEvent) -> (MsgState, MsgAction) {
    let o = st.option;
    match st.phase {
        MsgPhase::SendGet => if ev.mr != MACH_MSG_SUCCESS {
            (MsgState { phase: MsgPhase::Finish { mr: ev.mr }, ..st }, MsgAction::Return { mr: ev.mr })
        } else if o & MACH_SEND_CANCEL != 0 && st.notify == MACH_PORT_NAME_NULL {
            send_dropped(st, MACH_SEND_INVALID_NOTIFY)
        } else {
            (MsgState { phase: MsgPhase::SendCopyin, ..st },
                MsgAction::CopyIn { notify: if o & MACH_SEND_CANCEL != 0 { st.notify } else { MACH_PORT_NAME_NULL } })
        },
        MsgPhase::SendCopyin => if ev.mr != MACH_MSG_SUCCESS {
            send_dropped(st, ev.mr)
        } else if o & MACH_SEND_NOTIFY != 0 {
            (MsgState { phase: MsgPhase::SendQueue { notify: true }, ..st },
                MsgAction::Send {
                    option: MACH_SEND_TIMEOUT,
                    time_out: if o & MACH_SEND_TIMEOUT != 0 { st.time_out } else { MACH_MSG_TIMEOUT_NONE },
                })
        } else {
            (MsgState { phase: MsgPhase::SendQueue { notify: false }, ..st },
                MsgAction::Send { option: o & MACH_SEND_TIMEOUT, time_out: st.time_out })
        },
        MsgPhase::SendQueue { notify } => if notify && ev.mr == MACH_SEND_TIMED_OUT {
            if st.notify == MACH_PORT_NAME_NULL {
                send_failed(st, MACH_SEND_INVALID_NOTIFY)
            } else {
                (MsgState { phase: MsgPhase::SendMarequest, ..st }, MsgAction::CreateMarequest { notify: st.notify })
            }
        } else {
            send_queued(st, ev.mr)
        },
        MsgPhase::SendMarequest => if ev.mr == MACH_MSG_SUCCESS {
            (MsgState { phase: MsgPhase::SendAlways, ..st }, MsgAction::SendAlways)
        } else {
            send_failed(st, ev.mr)
        },
        MsgPhase::SendAlways => (MsgState { phase: MsgPhase::Finish { mr: MACH_SEND_WILL_NOTIFY }, ..st },
            MsgAction::Return { mr: MACH_SEND_WILL_NOTIFY }),
        MsgPhase::SendPseudo { mr } => (MsgState { phase: MsgPhase::Finish { mr: mr | ev.mr }, ..st },
            MsgAction::PutKmsg { whole: true }),
        MsgPhase::Finish { mr } => (st, MsgAction::Return { mr }),
        _ => (st, MsgAction::Return { mr: MACH_MSG_SUCCESS }),
    }
}

// ─── The receive ─────────────────────────────────────────────────

/// The receive of a trap with these parameters, asking for its queue.
pub open spec fn rcv_start_spec(st: MsgState) -> (MsgState, MsgAction) {
    (MsgState { phase: MsgPhase::RcvQueue, ..st }, MsgAction::FindQueue { name: st.rcv_name })
}

/// The receive asked for, as the trap's options say.
pub open spec fn rcv_action(st: MsgState) -> MsgAction {
    MsgAction::Receive {
        option: st.option & MACH_RCV_TIMEOUT,
        max_size: if st.option & MACH_RCV_LARGE != 0 { st.rcv_size } else { MACH_MSG_SIZE_MAX },
        time_out: st.time_out,
    }
}

/// A receive that failed with `mr` once its message was taken: the
/// destination alone goes out, with the header.
pub open spec fn rcv_dest(st: MsgState, mr: i32) -> (MsgState, MsgAction) {
    (MsgState { phase: MsgPhase::RcvDest { mr }, ..st }, MsgAction::CopyoutDest)
}

/// The message received goes out: its rights are copied out with the
/// notify name (which must not be null under `MACH_RCV_NOTIFY`).
pub open spec fn rcv_copyout(st: MsgState) -> (MsgState, MsgAction) {
    if st.option & MACH_RCV_NOTIFY != 0 && st.notify == MACH_PORT_NAME_NULL {
        rcv_dest(st, MACH_RCV_INVALID_NOTIFY)
    } else {
        (MsgState { phase: MsgPhase::RcvCopyout, ..st },
            MsgAction::CopyOut { notify: if st.option & MACH_RCV_NOTIFY != 0 { st.notify } else { MACH_PORT_NAME_NULL } })
    }
}

/// `mach_msg_receive`, one step: the receive name's queue is found (a
/// failure ends the trap) and a message taken from it, whose msg-accepted
/// request, if any, is destroyed; the reference to the queue's object
/// goes.  Under `MACH_RCV_LARGE` a message too large
/// stays queued and the size it needs is written to the user's header;
/// otherwise it is taken, only its destination is copied out, and the
/// header goes back with `MACH_RCV_TOO_LARGE`.  A message taken has its
/// rights copied out; a body error still gives the whole message back,
/// another error only the destination and the header.
pub open spec fn rcv_step_spec(st: MsgState, ev: MsgEvent) -> (MsgState, MsgAction) {
    let o = st.option;
    match st.phase {
        MsgPhase::RcvQueue => if ev.mr != MACH_MSG_SUCCESS {
            (MsgState { phase: MsgPhase::Finish { mr: ev.mr }, ..st }, MsgAction::Return { mr: ev.mr })
        } else {
            (MsgState { phase: MsgPhase::RcvWait, ..st }, rcv_action(st))
        },
        MsgPhase::RcvWait => if ev.mr == MACH_MSG_SUCCESS && ev.marequest {
            (MsgState { phase: MsgPhase::RcvMarequest { size: ev.size }, ..st }, MsgAction::DestroyMarequest)
        } else {
            (MsgState { phase: MsgPhase::RcvRelease { mr: ev.mr, size: ev.size }, ..st }, MsgAction::ReleaseObject)
        },
        MsgPhase::RcvMarequest { size } => (MsgState { phase: MsgPhase::RcvRelease { mr: MACH_MSG_SUCCESS, size }, ..st },
            MsgAction::ReleaseObject),
        MsgPhase::RcvRelease { mr, size } => if o & MACH_RCV_LARGE != 0 {
            if mr == MACH_RCV_TOO_LARGE {
                (MsgState { phase: MsgPhase::Finish { mr }, ..st }, MsgAction::ReportSize { size })
            } else if mr != MACH_MSG_SUCCESS {
                (MsgState { phase: MsgPhase::Finish { mr }, ..st }, MsgAction::Return { mr })
            } else {
                rcv_copyout(st)
            }
        } else if mr != MACH_MSG_SUCCESS {
            (MsgState { phase: MsgPhase::Finish { mr }, ..st }, MsgAction::Return { mr })
        } else if size > st.rcv_size {
            rcv_dest(st, MACH_RCV_TOO_LARGE)
        } else {
            rcv_copyout(st)
        },
        MsgPhase::RcvCopyout => if ev.mr == MACH_MSG_SUCCESS {
            (MsgState { phase: MsgPhase::RcvPut, ..st }, MsgAction::PutKmsg { whole: true })
        } else if ev.mr & !MACH_MSG_MASK == MACH_RCV_BODY_ERROR {
            (MsgState { phase: MsgPhase::Finish { mr: ev.mr }, ..st }, MsgAction::PutKmsg { whole: true })
        } else {
            rcv_dest(st, ev.mr)
        },
        MsgPhase::RcvDest { mr } => (MsgState { phase: MsgPhase::Finish { mr }, ..st }, MsgAction::PutKmsg { whole: false }),
        MsgPhase::RcvPut => (MsgState { phase: MsgPhase::Finish { mr: ev.mr }, ..st }, MsgAction::Return { mr: ev.mr }),
        MsgPhase::Finish { mr } => (st, MsgAction::Return { mr }),
        _ => (st, MsgAction::Return { mr: MACH_MSG_SUCCESS }),
    }
}

// ─── The trap ────────────────────────────────────────────────────

/// `mach_msg_trap`, one step: the send's steps, and once the send returned
/// success with a receive to do, the receive's.
pub open spec fn trap_step_spec(st: MsgState, ev: MsgEvent) -> (MsgState, MsgAction) {
    if in_send(st.phase) {
        let (st1, a) = send_step_spec(st, ev);
        if a == (MsgAction::Return { mr: MACH_MSG_SUCCESS }) && st.then_receive {
            rcv_start_spec(st1)
        } else {
            (st1, a)
        }
    } else {
        rcv_step_spec(st, ev)
    }
}

/// The parameters of a trap.
pub open spec fn params(option: i32, send_size: u32, rcv_size: u32, rcv_name: u32, time_out: u32, notify: u32,
    then_receive: bool) -> MsgState
{
    MsgState { option, send_size, rcv_size, rcv_name, time_out, notify, then_receive, phase: MsgPhase::Finish { mr: MACH_MSG_SUCCESS } }
}

/// `mach_msg_trap` starting: no option returns at once; a send starts the
/// send (the receive, if asked for, follows it); a receive alone starts the
/// receive.
pub open spec fn trap_start_spec(option: i32, send_size: u32, rcv_size: u32, rcv_name: u32, time_out: u32,
    notify: u32) -> (MsgState, MsgAction)
{
    let p = params(option, send_size, rcv_size, rcv_name, time_out, notify, option & MACH_RCV_MSG != 0);
    if option == MACH_MSG_OPTION_NONE {
        (p, MsgAction::Return { mr: MACH_MSG_SUCCESS })
    } else if option & MACH_SEND_MSG != 0 {
        send_start_spec(p)
    } else if option & MACH_RCV_MSG != 0 {
        rcv_start_spec(p)
    } else {
        (p, MsgAction::Return { mr: MACH_MSG_SUCCESS })
    }
}

fn finish(st: &mut MsgState, mr: mach_msg_return_t, a: MsgAction) -> (r: MsgAction)
    ensures
        *final(st) == (MsgState { phase: MsgPhase::Finish { mr }, ..*old(st) }),
        r == a,
{
    st.phase = MsgPhase::Finish { mr };
    a
}

/// `mach_msg_send` starting: the trap's state and the first work.
pub fn mach_msg_send(option: mach_msg_option_t, send_size: mach_msg_size_t, time_out: mach_msg_timeout_t,
    notify: mach_port_name_t) -> (r: (MsgState, MsgAction))
    ensures
        r == send_start_spec(params(option, send_size, 0, MACH_PORT_NAME_NULL, time_out, notify, false)),
{
    let st = MsgState {
        option, send_size, rcv_size: 0, rcv_name: MACH_PORT_NAME_NULL, time_out, notify, then_receive: false,
        phase: MsgPhase::SendGet,
    };
    (st, MsgAction::GetKmsg { size: send_size })
}

/// `mach_msg_send`, one step.
pub fn mach_msg_send_step(st: &mut MsgState, ev: MsgEvent) -> (a: MsgAction)
    ensures
        (*final(st), a) == send_step_spec(*old(st), ev),
{
    let o = st.option;
    match st.phase {
        MsgPhase::SendGet => {
            if ev.mr != MACH_MSG_SUCCESS {
                finish(st, ev.mr, MsgAction::Return { mr: ev.mr })
            } else if o & MACH_SEND_CANCEL != 0 && st.notify == MACH_PORT_NAME_NULL {
                finish(st, MACH_SEND_INVALID_NOTIFY, MsgAction::FreeKmsg)
            } else {
                st.phase = MsgPhase::SendCopyin;
                MsgAction::CopyIn { notify: if o & MACH_SEND_CANCEL != 0 { st.notify } else { MACH_PORT_NAME_NULL } }
            }
        },
        MsgPhase::SendCopyin => {
            if ev.mr != MACH_MSG_SUCCESS {
                finish(st, ev.mr, MsgAction::FreeKmsg)
            } else if o & MACH_SEND_NOTIFY != 0 {
                st.phase = MsgPhase::SendQueue { notify: true };
                MsgAction::Send {
                    option: MACH_SEND_TIMEOUT,
                    time_out: if o & MACH_SEND_TIMEOUT != 0 { st.time_out } else { MACH_MSG_TIMEOUT_NONE },
                }
            } else {
                st.phase = MsgPhase::SendQueue { notify: false };
                MsgAction::Send { option: o & MACH_SEND_TIMEOUT, time_out: st.time_out }
            }
        },
        MsgPhase::SendQueue { notify } => {
            if notify && ev.mr == MACH_SEND_TIMED_OUT {
                if st.notify == MACH_PORT_NAME_NULL {
                    st.phase = MsgPhase::SendPseudo { mr: MACH_SEND_INVALID_NOTIFY };
                    MsgAction::CopyoutPseudo
                } else {
                    st.phase = MsgPhase::SendMarequest;
                    MsgAction::CreateMarequest { notify: st.notify }
                }
            } else if ev.mr == MACH_MSG_SUCCESS {
                MsgAction::Return { mr: ev.mr }
            } else {
                st.phase = MsgPhase::SendPseudo { mr: ev.mr };
                MsgAction::CopyoutPseudo
            }
        },
        MsgPhase::SendMarequest => {
            if ev.mr == MACH_MSG_SUCCESS {
                st.phase = MsgPhase::SendAlways;
                MsgAction::SendAlways
            } else {
                st.phase = MsgPhase::SendPseudo { mr: ev.mr };
                MsgAction::CopyoutPseudo
            }
        },
        MsgPhase::SendAlways => finish(st, MACH_SEND_WILL_NOTIFY, MsgAction::Return { mr: MACH_SEND_WILL_NOTIFY }),
        MsgPhase::SendPseudo { mr } => finish(st, mr | ev.mr, MsgAction::PutKmsg { whole: true }),
        MsgPhase::Finish { mr } => MsgAction::Return { mr },
        _ => MsgAction::Return { mr: MACH_MSG_SUCCESS },
    }
}

/// `mach_msg_receive` starting: the trap's state and the first work.
pub fn mach_msg_receive(option: mach_msg_option_t, rcv_size: mach_msg_size_t, rcv_name: mach_port_name_t,
    time_out: mach_msg_timeout_t, notify: mach_port_name_t) -> (r: (MsgState, MsgAction))
    ensures
        r == rcv_start_spec(params(option, 0, rcv_size, rcv_name, time_out, notify, false)),
{
    let st = MsgState {
        option, send_size: 0, rcv_size, rcv_name, time_out, notify, then_receive: false, phase: MsgPhase::RcvQueue,
    };
    (st, MsgAction::FindQueue { name: rcv_name })
}

fn rcv_action_exec(st: &MsgState) -> (a: MsgAction)
    ensures
        a == rcv_action(*st),
{
    MsgAction::Receive {
        option: st.option & MACH_RCV_TIMEOUT,
        max_size: if st.option & MACH_RCV_LARGE != 0 { st.rcv_size } else { MACH_MSG_SIZE_MAX },
        time_out: st.time_out,
    }
}

fn rcv_copyout_exec(st: &mut MsgState) -> (a: MsgAction)
    ensures
        (*final(st), a) == rcv_copyout(*old(st)),
{
    if st.option & MACH_RCV_NOTIFY != 0 && st.notify == MACH_PORT_NAME_NULL {
        st.phase = MsgPhase::RcvDest { mr: MACH_RCV_INVALID_NOTIFY };
        MsgAction::CopyoutDest
    } else {
        st.phase = MsgPhase::RcvCopyout;
        MsgAction::CopyOut { notify: if st.option & MACH_RCV_NOTIFY != 0 { st.notify } else { MACH_PORT_NAME_NULL } }
    }
}

/// `mach_msg_receive`, one step.
pub fn mach_msg_receive_step(st: &mut MsgState, ev: MsgEvent) -> (a: MsgAction)
    ensures
        (*final(st), a) == rcv_step_spec(*old(st), ev),
{
    let o = st.option;
    match st.phase {
        MsgPhase::RcvQueue => {
            if ev.mr != MACH_MSG_SUCCESS {
                finish(st, ev.mr, MsgAction::Return { mr: ev.mr })
            } else {
                st.phase = MsgPhase::RcvWait;
                rcv_action_exec(st)
            }
        },
        MsgPhase::RcvWait => {
            if ev.mr == MACH_MSG_SUCCESS && ev.marequest {
                st.phase = MsgPhase::RcvMarequest { size: ev.size };
                MsgAction::DestroyMarequest
            } else {
                st.phase = MsgPhase::RcvRelease { mr: ev.mr, size: ev.size };
                MsgAction::ReleaseObject
            }
        },
        MsgPhase::RcvMarequest { size } => {
            st.phase = MsgPhase::RcvRelease { mr: MACH_MSG_SUCCESS, size };
            MsgAction::ReleaseObject
        },
        MsgPhase::RcvRelease { mr, size } => {
            if o & MACH_RCV_LARGE != 0 {
                if mr == MACH_RCV_TOO_LARGE {
                    finish(st, mr, MsgAction::ReportSize { size })
                } else if mr != MACH_MSG_SUCCESS {
                    finish(st, mr, MsgAction::Return { mr })
                } else {
                    rcv_copyout_exec(st)
                }
            } else if mr != MACH_MSG_SUCCESS {
                finish(st, mr, MsgAction::Return { mr })
            } else if size > st.rcv_size {
                st.phase = MsgPhase::RcvDest { mr: MACH_RCV_TOO_LARGE };
                MsgAction::CopyoutDest
            } else {
                rcv_copyout_exec(st)
            }
        },
        MsgPhase::RcvCopyout => {
            if ev.mr == MACH_MSG_SUCCESS {
                st.phase = MsgPhase::RcvPut;
                MsgAction::PutKmsg { whole: true }
            } else if ev.mr & !MACH_MSG_MASK == MACH_RCV_BODY_ERROR {
                finish(st, ev.mr, MsgAction::PutKmsg { whole: true })
            } else {
                st.phase = MsgPhase::RcvDest { mr: ev.mr };
                MsgAction::CopyoutDest
            }
        },
        MsgPhase::RcvDest { mr } => finish(st, mr, MsgAction::PutKmsg { whole: false }),
        MsgPhase::RcvPut => finish(st, ev.mr, MsgAction::Return { mr: ev.mr }),
        MsgPhase::Finish { mr } => MsgAction::Return { mr },
        _ => MsgAction::Return { mr: MACH_MSG_SUCCESS },
    }
}

/// `mach_msg_receive_continue`: a receive that blocked asks for the same
/// receive again.
pub fn mach_msg_receive_continue(st: &MsgState) -> (a: MsgAction)
    ensures
        a == rcv_action(*st),
{
    rcv_action_exec(st)
}

/// `mach_msg_continue`: the receive half of a trap that blocked asks for
/// the same receive again.
pub fn mach_msg_continue(st: &MsgState) -> (a: MsgAction)
    ensures
        a == rcv_action(*st),
{
    rcv_action_exec(st)
}

/// `mach_msg_trap` starting: the trap's state and the first work.
pub fn mach_msg_trap(option: mach_msg_option_t, send_size: mach_msg_size_t, rcv_size: mach_msg_size_t,
    rcv_name: mach_port_name_t, time_out: mach_msg_timeout_t, notify: mach_port_name_t) -> (r: (MsgState, MsgAction))
    ensures
        r == trap_start_spec(option, send_size, rcv_size, rcv_name, time_out, notify),
{
    let mut st = MsgState {
        option, send_size, rcv_size, rcv_name, time_out, notify, then_receive: option & MACH_RCV_MSG != 0,
        phase: MsgPhase::Finish { mr: MACH_MSG_SUCCESS },
    };
    if option == MACH_MSG_OPTION_NONE {
        (st, MsgAction::Return { mr: MACH_MSG_SUCCESS })
    } else if option & MACH_SEND_MSG != 0 {
        st.phase = MsgPhase::SendGet;
        (st, MsgAction::GetKmsg { size: send_size })
    } else if option & MACH_RCV_MSG != 0 {
        st.phase = MsgPhase::RcvQueue;
        (st, MsgAction::FindQueue { name: rcv_name })
    } else {
        (st, MsgAction::Return { mr: MACH_MSG_SUCCESS })
    }
}

/// `mach_msg_trap`, one step.
pub fn mach_msg_trap_step(st: &mut MsgState, ev: MsgEvent) -> (a: MsgAction)
    ensures
        (*final(st), a) == trap_step_spec(*old(st), ev),
{
    match st.phase {
        MsgPhase::SendGet | MsgPhase::SendCopyin | MsgPhase::SendQueue { .. } | MsgPhase::SendMarequest
        | MsgPhase::SendAlways | MsgPhase::SendPseudo { .. } => {
            let then_receive = st.then_receive;
            let a = mach_msg_send_step(st, ev);
            if a == (MsgAction::Return { mr: MACH_MSG_SUCCESS }) && then_receive {
                st.phase = MsgPhase::RcvQueue;
                MsgAction::FindQueue { name: st.rcv_name }
            } else {
                a
            }
        },
        _ => mach_msg_receive_step(st, ev),
    }
}

/// The combined send-and-receive trap runs as a send followed by a
/// receive: it starts as the send starts; while sending, each step is the
/// send's step, except that a send returning success starts the receive
/// (from the same parameters) instead of returning; and while receiving,
/// each step is the receive's step.
pub proof fn law_combined_is_send_then_receive(
    send_size: u32,
    rcv_size: u32,
    rcv_name: u32,
    time_out: u32,
    notify: u32,
    st: MsgState,
    ev: MsgEvent,
)
    ensures
        ({
            let option = MACH_SEND_MSG | MACH_RCV_MSG;
            let p = params(option, send_size, rcv_size, rcv_name, time_out, notify, true);
            trap_start_spec(option, send_size, rcv_size, rcv_name, time_out, notify) == send_start_spec(p)
        }),
        st.then_receive && in_send(st.phase) ==> {
            let (s1, a) = send_step_spec(st, ev);
            trap_step_spec(st, ev) == if a == (MsgAction::Return { mr: MACH_MSG_SUCCESS }) {
                rcv_start_spec(s1)
            } else {
                (s1, a)
            }
        },
        !in_send(st.phase) ==> trap_step_spec(st, ev) == rcv_step_spec(st, ev),
        st.then_receive && in_send(st.phase) ==> send_step_spec(st, ev).0.rcv_name == st.rcv_name
            && send_step_spec(st, ev).0.rcv_size == st.rcv_size && send_step_spec(st, ev).0.option == st.option,
{
    assert((MACH_SEND_MSG | MACH_RCV_MSG) & MACH_RCV_MSG != 0 && (MACH_SEND_MSG | MACH_RCV_MSG) & MACH_SEND_MSG != 0
        && (MACH_SEND_MSG | MACH_RCV_MSG) != 0) by (bit_vector);
}

// ─── Interrupting a receive ──────────────────────────────────────

/// `mach_msg_interrupt`: a thread blocked in a receive on the queue whose
/// waiting receivers are `queue` leaves it and its receive returns
/// `MACH_RCV_INTERRUPTED` (true); a thread not receiving is left alone
/// (false).  When true, the caller releases the reference the receive held
/// to the queue's object.
pub fn mach_msg_interrupt(queue: &mut Vec<u32>, threads: &mut Vec<thread>, th: u32) -> (r: bool)
    requires
        th < old(threads).len(),
        old(threads)[th as int].ith_state == MACH_RCV_IN_PROGRESS ==> old(queue)@.contains(th),
    ensures
        r == (old(threads)[th as int].ith_state == MACH_RCV_IN_PROGRESS),
        !r ==> *final(queue) == *old(queue) && *final(threads) == *old(threads),
        r ==> final(queue)@ == without(old(queue)@, th)
            && final(threads)@ == old(threads)@.update(th as int, thread { ith_state: MACH_RCV_INTERRUPTED, ..old(threads)[th as int] }),
{
    let t = threads[th as usize];
    if t.ith_state != MACH_RCV_IN_PROGRESS {
        return false;
    }
    ipc_thread_rmqueue(queue, th);
    threads.set(th as usize, thread { ith_state: MACH_RCV_INTERRUPTED, ..t });
    true
}

} // verus!
