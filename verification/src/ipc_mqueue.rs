//! Message queues: sending a message to a port (handing it straight to a
//! waiting receiver, queueing it, or blocking the sender while the queue is
//! full) and receiving one.
//!
//! Blocking is the caller's business: a send or receive that must wait
//! returns `Block`, the caller puts the thread to sleep, and once the
//! thread wakes it calls the matching `_resume` function with the reason
//! it woke for.  Threads are named by their index in a vector of their IPC
//! state.

use vstd::prelude::*;

use crate::ipc_port::{ipc_port_lock_mqueue, lemma_lock_len, lock_mqueue_spec, port_mqueue_ok};
use crate::ipc_right::{
    get_entry, ipc_entry_lookup, ipc_mqueue, ipc_port, ipc_pset, ipc_space, lookup_spec, names_unique, pv,
    release_actions, released, IpcAction, PortModel,
};
use crate::mach_types::{
    mach_msg_header_t, mach_msg_option_t, mach_msg_return_t, mach_msg_size_t, mach_msg_timeout_t,
    mach_port_seqno_t, MACH_MSGH_BITS_CIRCULAR, MACH_MSG_SUCCESS, MACH_MSG_TYPE_PORT_SEND_ONCE,
    mach_port_name_t, MACH_RCV_INVALID_NAME, MACH_RCV_IN_SET, MACH_PORT_TYPE_PORT_SET, MACH_PORT_TYPE_RECEIVE,
    MACH_RCV_IN_PROGRESS, MACH_RCV_INTERRUPTED, MACH_RCV_PORT_CHANGED, MACH_RCV_PORT_DIED, MACH_RCV_TIMED_OUT,
    MACH_RCV_TOO_LARGE, MACH_SEND_IN_PROGRESS, MACH_SEND_INTERRUPTED, MACH_SEND_TIMED_OUT,
};

verus! {

/// `MACH_SEND_TIMEOUT`: give up a send after a timeout.
pub const MACH_SEND_TIMEOUT: mach_msg_option_t = 0x0000_0010;
/// `MACH_RCV_TIMEOUT`: give up a receive after a timeout.
pub const MACH_RCV_TIMEOUT: mach_msg_option_t = 0x0000_0100;
/// `MACH_SEND_ALWAYS`: the kernel's own sends never block.
pub const MACH_SEND_ALWAYS: mach_msg_option_t = 0x0001_0000;
/// Why a blocked thread woke: its wait timed out.
pub const THREAD_TIMED_OUT: i32 = 1;
/// Why a blocked thread woke: it was interrupted.
pub const THREAD_INTERRUPTED: i32 = 2;

/// The IPC state of a thread: how its last wait ended, the largest
/// message it takes, and the message and sequence number a sender handed
/// it.
#[derive(Clone, Copy, Debug, PartialEq, Eq, Structural)]
pub struct thread {
    pub ith_state: mach_msg_return_t,
    pub ith_msize: mach_msg_size_t,
    pub ith_kmsg: mach_msg_header_t,
    pub ith_seqno: mach_port_seqno_t,
}

/// The mathematical state of a port set.
pub ghost struct PsetModel {
    pub active: bool,
    pub name: u32,
    pub messages: Seq<mach_msg_header_t>,
    pub receivers: Seq<u32>,
}

impl View for ipc_pset {
    type V = PsetModel;

    open spec fn view(&self) -> PsetModel {
        PsetModel {
            active: self.ips_active,
            name: self.ips_local_name,
            messages: self.ips_messages.imq_messages@,
            receivers: self.ips_messages.imq_threads@,
        }
    }
}

pub open spec fn psv(psets: Vec<ipc_pset>) -> Seq<PsetModel> {
    Seq::new(psets.len() as nat, |i: int| psets[i]@)
}

/// Ports, port sets, threads and the work handed on.
#[verifier::ext_equal]
pub ghost struct MState {
    pub ports: Seq<PortModel>,
    pub psets: Seq<PsetModel>,
    pub threads: Seq<thread>,
    pub acts: Seq<IpcAction>,
}

pub open spec fn mst(ports: Vec<ipc_port>, psets: Vec<ipc_pset>, threads: Vec<thread>, acts: Vec<IpcAction>) -> MState {
    MState { ports: pv(ports), psets: psv(psets), threads: threads@, acts: acts@ }
}

/// What a send or receive does next.
#[derive(Clone, Copy, Debug, PartialEq, Eq, Structural)]
pub enum SendStep {
    /// The send is over, with this result.
    Done { mr: mach_msg_return_t },
    /// The thread sleeps on the port's queue of blocked senders (for at
    /// most `time_out` when `timed`), then resumes with
    /// `ipc_mqueue_send_resume`.
    Block { timed: bool, time_out: mach_msg_timeout_t },
}

// ─── Handing a message over ──────────────────────────────────────

/// The message goes to the first waiting receiver that takes its size;
/// each receiver before that one is woken with `MACH_RCV_TOO_LARGE` and
/// the size it would have needed.  With no such receiver the message is
/// queued.  Returns the receivers and messages left, the threads, the work
/// handed on, and the port's next sequence number.
pub open spec fn handoff(receivers: Seq<u32>, messages: Seq<mach_msg_header_t>, threads: Seq<thread>,
    acts: Seq<IpcAction>, seqno: u32, msg: mach_msg_header_t)
    -> (Seq<u32>, Seq<mach_msg_header_t>, Seq<thread>, Seq<IpcAction>, u32)
    decreases receivers.len(),
{
    if receivers.len() == 0 {
        (receivers, messages.push(msg), threads, acts, seqno)
    } else {
        let r = receivers[0];
        let t = threads[r as int];
        if msg.msgh_size <= t.ith_msize {
            (
                receivers.drop_first(),
                messages,
                threads.update(r as int, thread { ith_state: MACH_MSG_SUCCESS, ith_kmsg: msg, ith_seqno: seqno, ..t }),
                acts.push(IpcAction::WakeThread { thread: r }),
                seqno.wrapping_add(1),
            )
        } else {
            handoff(
                receivers.drop_first(),
                messages,
                threads.update(r as int, thread { ith_state: MACH_RCV_TOO_LARGE, ith_msize: msg.msgh_size, ..t }),
                acts.push(IpcAction::WakeThread { thread: r }),
                seqno,
                msg,
            )
        }
    }
}

/// Every waiting receiver is a thread.
pub open spec fn threads_ok(receivers: Seq<u32>, threads: Seq<thread>) -> bool {
    forall|i: int| 0 <= i < receivers.len() ==> #[trigger] receivers[i] < threads.len()
}

pub(crate) fn handoff_exec(queue: &mut ipc_mqueue, threads: &mut Vec<thread>, acts: &mut Vec<IpcAction>, seqno: u32, msg: mach_msg_header_t)
    -> (next: u32)
    requires
        threads_ok(old(queue).imq_threads@, old(threads)@),
    ensures
        (final(queue).imq_threads@, final(queue).imq_messages@, final(threads)@, final(acts)@, next)
            == handoff(old(queue).imq_threads@, old(queue).imq_messages@, old(threads)@, old(acts)@, seqno, msg),
{
    let ghost r0 = old(queue).imq_threads@;
    let ghost m0 = old(queue).imq_messages@;
    let ghost t0 = old(threads)@;
    let ghost a0 = old(acts)@;
    loop
        invariant
            threads_ok(queue.imq_threads@, threads@),
            queue.imq_messages@ == m0,
            handoff(queue.imq_threads@, queue.imq_messages@, threads@, acts@, seqno, msg)
                == handoff(r0, m0, t0, a0, seqno, msg),
            r0 == old(queue).imq_threads@,
            m0 == old(queue).imq_messages@,
            t0 == old(threads)@,
            a0 == old(acts)@,
        decreases queue.imq_threads.len(),
    {
        let ghost prev = queue.imq_threads@;
        let ghost tb = threads@;
        let ghost ab = acts@;
        if queue.imq_threads.len() == 0 {
            assert(handoff(prev, m0, tb, ab, seqno, msg) == (prev, m0.push(msg), tb, ab, seqno));
            ipc_kmsg_enqueue(&mut queue.imq_messages, msg);
            return seqno;
        }
        let r = queue.imq_threads.remove(0);
        assert(r == prev[0]);
        assert(r < threads.len());
        let t = threads[r as usize];
        if msg.msgh_size <= t.ith_msize {
            threads.set(r as usize, thread { ith_state: MACH_MSG_SUCCESS, ith_kmsg: msg, ith_seqno: seqno, ..t });
            acts.push(IpcAction::WakeThread { thread: r });
            assert(queue.imq_threads@ =~= prev.drop_first());
            assert(handoff(prev, m0, tb, ab, seqno, msg) == (queue.imq_threads@, m0, threads@, acts@, seqno.wrapping_add(1)));
            return seqno.wrapping_add(1);
        }
        threads.set(r as usize, thread { ith_state: MACH_RCV_TOO_LARGE, ith_msize: msg.msgh_size, ..t });
        acts.push(IpcAction::WakeThread { thread: r });
        proof {
            assert(queue.imq_threads@ =~= prev.drop_first());
            assert(handoff(prev, m0, tb, ab, seqno, msg) == handoff(queue.imq_threads@, m0, threads@, acts@, seqno, msg));
            assert forall|i: int| 0 <= i < queue.imq_threads@.len() implies #[trigger] queue.imq_threads@[i] < threads.len() by {
                assert(queue.imq_threads@[i] == prev[i + 1]);
            }
        }
    }
}

// ─── Sending ─────────────────────────────────────────────────────

/// The message delivered to its port: counted, and handed to a receiver
/// of the port's queue (its port set's queue when it is in one) or queued.
pub open spec fn deliver(m: MState, msg: mach_msg_header_t) -> MState {
    let p = msg.msgh_remote_port;
    let q = m.ports[p as int];
    let q1 = PortModel { msgcount: (q.msgcount + 1) as u32, ..q };
    if q.pset == 0 {
        let (rs, ms, ts, acts, seq) = handoff(q.receivers, q.messages, m.threads, m.acts, q.seqno, msg);
        MState {
            ports: m.ports.update(p as int, PortModel { receivers: rs, messages: ms, seqno: seq, ..q1 }),
            threads: ts,
            acts,
            ..m
        }
    } else {
        let ps = m.psets[q.pset as int];
        let (rs, ms, ts, acts, seq) = handoff(ps.receivers, ps.messages, m.threads, m.acts, q.seqno, msg);
        MState {
            ports: m.ports.update(p as int, PortModel { seqno: seq, ..q1 }),
            psets: m.psets.update(q.pset as int, PsetModel { receivers: rs, messages: ms, ..ps }),
            threads: ts,
            acts,
            ..m
        }
    }
}

/// One pass of `ipc_mqueue_send` for the thread `me`: a dead port takes
/// the message and destroys it; a port under its queue limit (or any port
/// for a kernel send or a send-once right) takes it, unless it would close
/// a loop of ports in transit, in which case it is destroyed; otherwise
/// the sender times out or blocks.
pub open spec fn send_attempt(m: MState, msg: mach_msg_header_t, option: i32, time_out: u32, me: u32) -> (SendStep, MState) {
    let p = msg.msgh_remote_port;
    let q = m.ports[p as int];
    if !q.active {
        let m1 = MState {
            ports: m.ports.update(p as int, released(q)),
            acts: m.acts + release_actions(p, q.references),
            ..m
        };
        (
            SendStep::Done { mr: MACH_MSG_SUCCESS },
            MState { acts: m1.acts.push(IpcAction::DestroyKmsg { msg: mach_msg_header_t { msgh_remote_port: 0, ..msg } }), ..m1 },
        )
    } else if q.msgcount < q.qlimit || option & MACH_SEND_ALWAYS != 0 || msg.msgh_bits & 0xff == MACH_MSG_TYPE_PORT_SEND_ONCE {
        if msg.msgh_bits & MACH_MSGH_BITS_CIRCULAR != 0 {
            (SendStep::Done { mr: MACH_MSG_SUCCESS }, MState { acts: m.acts.push(IpcAction::DestroyKmsg { msg }), ..m })
        } else {
            (SendStep::Done { mr: MACH_MSG_SUCCESS }, deliver(m, msg))
        }
    } else if option & MACH_SEND_TIMEOUT != 0 && time_out == 0 {
        (SendStep::Done { mr: MACH_SEND_TIMED_OUT }, m)
    } else {
        (
            SendStep::Block { timed: option & MACH_SEND_TIMEOUT != 0, time_out },
            MState {
                ports: m.ports.update(p as int, PortModel { blocked: q.blocked.push(me), ..q }),
                threads: m.threads.update(me as int, thread { ith_state: MACH_SEND_IN_PROGRESS, ..m.threads[me as int] }),
                ..m
            },
        )
    }
}

/// What a send pass needs: the destination port, the thread, a queue whose
/// waiting receivers are threads and hold no queued message, and room in
/// the message count.
pub open spec fn send_ok(m: MState, msg: mach_msg_header_t, me: u32) -> bool {
    let p = msg.msgh_remote_port;
    let q = m.ports[p as int];
    &&& 0 < p < m.ports.len()
    &&& me < m.threads.len()
    &&& q.references > 0
    &&& q.msgcount < u32::MAX
    &&& q.pset == 0 ==> threads_ok(q.receivers, m.threads) && (q.receivers.len() > 0 ==> q.messages.len() == 0)
    &&& q.pset != 0 ==> {
        &&& q.pset < m.psets.len()
        &&& threads_ok(m.psets[q.pset as int].receivers, m.threads)
        &&& m.psets[q.pset as int].receivers.len() > 0 ==> m.psets[q.pset as int].messages.len() == 0
    }
}

fn send_attempt_exec(
    ports: &mut Vec<ipc_port>,
    psets: &mut Vec<ipc_pset>,
    threads: &mut Vec<thread>,
    acts: &mut Vec<IpcAction>,
    msg: mach_msg_header_t,
    option: mach_msg_option_t,
    time_out: mach_msg_timeout_t,
    me: u32,
) -> (r: SendStep)
    requires
        send_ok(mst(*old(ports), *old(psets), *old(threads), *old(acts)), msg, me),
    ensures
        (r, mst(*final(ports), *final(psets), *final(threads), *final(acts)))
            == send_attempt(mst(*old(ports), *old(psets), *old(threads), *old(acts)), msg, option, time_out, me),
{
    let ghost m0 = mst(*ports, *psets, *threads, *acts);
    let p = msg.msgh_remote_port;
    let pi = p as usize;
    if !ports[pi].ip_active {
        crate::ipc_right::ipc_port_release(ports, p, acts);
        acts.push(IpcAction::DestroyKmsg { msg: mach_msg_header_t { msgh_remote_port: 0, ..msg } });
        assert(mst(*ports, *psets, *threads, *acts) =~= send_attempt(m0, msg, option, time_out, me).1);
        return SendStep::Done { mr: MACH_MSG_SUCCESS };
    }
    if ports[pi].ip_msgcount < ports[pi].ip_qlimit || option & MACH_SEND_ALWAYS != 0
        || msg.msgh_bits & 0xff == MACH_MSG_TYPE_PORT_SEND_ONCE {
        if msg.msgh_bits & MACH_MSGH_BITS_CIRCULAR != 0 {
            acts.push(IpcAction::DestroyKmsg { msg });
            assert(mst(*ports, *psets, *threads, *acts) =~= send_attempt(m0, msg, option, time_out, me).1);
            return SendStep::Done { mr: MACH_MSG_SUCCESS };
        }
        ports[pi].ip_msgcount = ports[pi].ip_msgcount + 1;
        let pset = ports[pi].ip_pset;
        let seqno = ports[pi].ip_seqno;
        if pset == 0 {
            let mut queue = ipc_mqueue { imq_messages: Vec::new(), imq_threads: Vec::new() };
            std::mem::swap(&mut queue, &mut ports[pi].ip_messages);
            let next = handoff_exec(&mut queue, threads, acts, seqno, msg);
            std::mem::swap(&mut queue, &mut ports[pi].ip_messages);
            ports[pi].ip_seqno = next;
        } else {
            let si = pset as usize;
            let mut queue = ipc_mqueue { imq_messages: Vec::new(), imq_threads: Vec::new() };
            std::mem::swap(&mut queue, &mut psets[si].ips_messages);
            let next = handoff_exec(&mut queue, threads, acts, seqno, msg);
            std::mem::swap(&mut queue, &mut psets[si].ips_messages);
            ports[pi].ip_seqno = next;
        }
        proof {
            let r = send_attempt(m0, msg, option, time_out, me).1;
            assert(pv(*ports) =~= r.ports);
            assert(psv(*psets) =~= r.psets);
        }
        return SendStep::Done { mr: MACH_MSG_SUCCESS };
    }
    if option & MACH_SEND_TIMEOUT != 0 && time_out == 0 {
        return SendStep::Done { mr: MACH_SEND_TIMED_OUT };
    }
    ipc_thread_enqueue(&mut ports[pi].ip_blocked, me);
    let t = threads[me as usize];
    threads.set(me as usize, thread { ith_state: MACH_SEND_IN_PROGRESS, ..t });
    proof {
        let r = send_attempt(m0, msg, option, time_out, me).1;
        assert(pv(*ports) =~= r.ports);
    }
    SendStep::Block { timed: option & MACH_SEND_TIMEOUT != 0, time_out }
}

/// `ipc_mqueue_send`: send `msg` (holding a reference to its destination
/// port) for the thread `me`.  A message to a port the kernel receives on
/// goes to the kernel's object server.
pub open spec fn send_spec(m: MState, msg: mach_msg_header_t, option: i32, time_out: u32, me: u32, kernel_space: u32)
    -> (SendStep, MState)
{
    if m.ports[msg.msgh_remote_port as int].receiver == kernel_space {
        (SendStep::Done { mr: MACH_MSG_SUCCESS }, MState { acts: m.acts.push(IpcAction::KernelServer { msg }), ..m })
    } else {
        send_attempt(m, msg, option, time_out, me)
    }
}

/// `ipc_mqueue_send`.
pub fn ipc_mqueue_send(
    ports: &mut Vec<ipc_port>,
    psets: &mut Vec<ipc_pset>,
    threads: &mut Vec<thread>,
    acts: &mut Vec<IpcAction>,
    msg: mach_msg_header_t,
    option: mach_msg_option_t,
    time_out: mach_msg_timeout_t,
    me: u32,
    kernel_space: u32,
) -> (r: SendStep)
    requires
        send_ok(mst(*old(ports), *old(psets), *old(threads), *old(acts)), msg, me),
        old(ports)[msg.msgh_remote_port as int].ip_receiver == kernel_space ==> old(ports)[msg.msgh_remote_port as int].ip_active,
    ensures
        (r, mst(*final(ports), *final(psets), *final(threads), *final(acts)))
            == send_spec(mst(*old(ports), *old(psets), *old(threads), *old(acts)), msg, option, time_out, me, kernel_space),
{
    let ghost m0 = mst(*ports, *psets, *threads, *acts);
    if ports[msg.msgh_remote_port as usize].ip_receiver == kernel_space {
        acts.push(IpcAction::KernelServer { msg });
        assert(mst(*ports, *psets, *threads, *acts) =~= send_spec(m0, msg, option, time_out, me, kernel_space).1);
        return SendStep::Done { mr: MACH_MSG_SUCCESS };
    }
    send_attempt_exec(ports, psets, threads, acts, msg, option, time_out, me)
}

// ─── Queues of messages and of threads ───────────────────────────

/// `ipc_kmsg_enqueue`: the message joins the end of the queue.
pub fn ipc_kmsg_enqueue(queue: &mut Vec<mach_msg_header_t>, kmsg: mach_msg_header_t)
    ensures
        final(queue)@ == old(queue)@.push(kmsg),
{
    queue.push(kmsg);
}

/// `ipc_kmsg_dequeue`: the first message leaves the queue; none when it is
/// empty.
pub fn ipc_kmsg_dequeue(queue: &mut Vec<mach_msg_header_t>) -> (r: Option<mach_msg_header_t>)
    ensures
        old(queue)@.len() == 0 ==> r is None && final(queue)@ == old(queue)@,
        old(queue)@.len() > 0 ==> r == Some(old(queue)@[0]) && final(queue)@ == old(queue)@.drop_first(),
{
    if queue.len() == 0 {
        return None;
    }
    let first = queue.remove(0);
    assert(queue@ =~= old(queue)@.drop_first());
    Some(first)
}

/// `ipc_kmsg_rmqueue`: the message at position `i` leaves the queue.
pub fn ipc_kmsg_rmqueue(queue: &mut Vec<mach_msg_header_t>, i: usize) -> (kmsg: mach_msg_header_t)
    requires
        i < old(queue)@.len(),
    ensures
        kmsg == old(queue)@[i as int],
        final(queue)@ == old(queue)@.remove(i as int),
{
    queue.remove(i)
}

/// `ipc_kmsg_queue_next`: the position of the message after the one at
/// `i`; none after the last.
pub fn ipc_kmsg_queue_next(queue: &Vec<mach_msg_header_t>, i: usize) -> (r: Option<usize>)
    requires
        i < queue@.len(),
    ensures
        r == (if i + 1 < queue@.len() { Some((i + 1) as usize) } else { None::<usize> }),
{
    if i < queue.len() - 1 { Some(i + 1) } else { None }
}

/// `ipc_thread_enqueue`: the thread joins the end of the queue.
pub fn ipc_thread_enqueue(queue: &mut Vec<u32>, th: u32)
    ensures
        final(queue)@ == old(queue)@.push(th),
{
    queue.push(th);
}

/// `ipc_thread_dequeue`: the first thread leaves the queue; none when it
/// is empty.
pub fn ipc_thread_dequeue(queue: &mut Vec<u32>) -> (r: Option<u32>)
    ensures
        old(queue)@.len() == 0 ==> r is None && final(queue)@ == old(queue)@,
        old(queue)@.len() > 0 ==> r == Some(old(queue)@[0]) && final(queue)@ == old(queue)@.drop_first(),
{
    if queue.len() == 0 {
        return None;
    }
    let first = queue.remove(0);
    assert(queue@ =~= old(queue)@.drop_first());
    Some(first)
}

/// Is `i` the first position of `x` in `s`?
pub open spec fn is_first_index(s: Seq<u32>, x: u32, i: int) -> bool {
    &&& 0 <= i < s.len()
    &&& s[i] == x
    &&& forall|j: int| 0 <= j < i ==> #[trigger] s[j] != x
}

/// The queue with thread `x` taken off (`ipc_thread_rmqueue`).
pub open spec fn without(s: Seq<u32>, x: u32) -> Seq<u32> {
    s.remove(choose|i: int| is_first_index(s, x, i))
}

/// `ipc_thread_rmqueue`: take thread `x` off a queue it is on.
pub fn ipc_thread_rmqueue(q: &mut Vec<u32>, x: u32)
    requires
        old(q)@.contains(x),
    ensures
        final(q)@ == without(old(q)@, x),
{
    let mut i: usize = 0;
    while i < q.len()
        invariant
            *q == *old(q),
            q@.contains(x),
            forall|j: int| 0 <= j < i ==> #[trigger] q@[j] != x,
        decreases q.len() - i,
    {
        if q[i] == x {
            proof {
                let k = choose|k: int| is_first_index(q@, x, k);
                assert(is_first_index(q@, x, i as int));
                if k < i as int {
                    assert(q@[k] != x);
                } else if k > i as int {
                    assert(q@[i as int] != x);
                }
            }
            q.remove(i);
            return;
        }
        i = i + 1;
    }
    proof {
        let k = choose|k: int| 0 <= k < q@.len() && q@[k] == x;
        assert(q@[k] != x);
    }
}

/// `ipc_mqueue_send` once the blocked sender `me` woke: a receiver made
/// room (its state is `MACH_MSG_SUCCESS`) and the send tries again; or the
/// wait ended by itself: the sender leaves the queue of blocked senders,
/// and gives up when interrupted or tries once more, without waiting, when
/// it timed out.
pub open spec fn send_resume_spec(m: MState, msg: mach_msg_header_t, option: i32, time_out: u32, me: u32, wait_result: i32)
    -> (SendStep, MState)
{
    let p = msg.msgh_remote_port;
    let q = m.ports[p as int];
    if m.threads[me as int].ith_state == MACH_MSG_SUCCESS {
        send_attempt(m, msg, option, time_out, me)
    } else {
        let m1 = MState { ports: m.ports.update(p as int, PortModel { blocked: without(q.blocked, me), ..q }), ..m };
        if wait_result == THREAD_INTERRUPTED {
            (SendStep::Done { mr: MACH_SEND_INTERRUPTED }, m1)
        } else {
            send_attempt(m1, msg, option, 0, me)
        }
    }
}

/// `ipc_mqueue_send`, after the thread `me` blocked by it woke with
/// `wait_result`.
pub fn ipc_mqueue_send_resume(
    ports: &mut Vec<ipc_port>,
    psets: &mut Vec<ipc_pset>,
    threads: &mut Vec<thread>,
    acts: &mut Vec<IpcAction>,
    msg: mach_msg_header_t,
    option: mach_msg_option_t,
    time_out: mach_msg_timeout_t,
    me: u32,
    wait_result: i32,
) -> (r: SendStep)
    requires
        send_ok(mst(*old(ports), *old(psets), *old(threads), *old(acts)), msg, me),
        old(threads)[me as int].ith_state == MACH_MSG_SUCCESS || old(threads)[me as int].ith_state == MACH_SEND_IN_PROGRESS,
        old(threads)[me as int].ith_state == MACH_SEND_IN_PROGRESS ==> {
            &&& old(ports)[msg.msgh_remote_port as int].ip_blocked@.contains(me)
            &&& wait_result == THREAD_INTERRUPTED || wait_result == THREAD_TIMED_OUT
            &&& wait_result == THREAD_TIMED_OUT ==> option & MACH_SEND_TIMEOUT != 0
        },
    ensures
        (r, mst(*final(ports), *final(psets), *final(threads), *final(acts)))
            == send_resume_spec(mst(*old(ports), *old(psets), *old(threads), *old(acts)), msg, option, time_out, me, wait_result),
{
    let ghost m0 = mst(*ports, *psets, *threads, *acts);
    if threads[me as usize].ith_state == MACH_MSG_SUCCESS {
        return send_attempt_exec(ports, psets, threads, acts, msg, option, time_out, me);
    }
    let pi = msg.msgh_remote_port as usize;
    let mut blocked = Vec::new();
    std::mem::swap(&mut blocked, &mut ports[pi].ip_blocked);
    ipc_thread_rmqueue(&mut blocked, me);
    std::mem::swap(&mut blocked, &mut ports[pi].ip_blocked);
    proof {
        let m1 = MState {
            ports: m0.ports.update(pi as int, PortModel { blocked: without(m0.ports[pi as int].blocked, me), ..m0.ports[pi as int] }),
            ..m0
        };
        assert(mst(*ports, *psets, *threads, *acts) =~= m1);
    }
    if wait_result == THREAD_INTERRUPTED {
        return SendStep::Done { mr: MACH_SEND_INTERRUPTED };
    }
    send_attempt_exec(ports, psets, threads, acts, msg, option, 0, me)
}

// ─── Receiving ───────────────────────────────────────────────────

/// A message queue: a port's own, or a port set's.
#[derive(Clone, Copy, Debug, PartialEq, Eq, Structural)]
pub enum MqueueId {
    Port { port: u32 },
    Pset { pset: u32 },
}

/// What a receive does next.
#[derive(Clone, Copy, Debug, PartialEq, Eq, Structural)]
pub enum RcvStep {
    /// A message came, with its sequence number.
    Got { kmsg: mach_msg_header_t, seqno: mach_port_seqno_t },
    /// The receive fails with `mr`; for `MACH_RCV_TOO_LARGE`, `size` is the
    /// size the message needs.
    Fail { mr: mach_msg_return_t, size: mach_msg_size_t },
    /// The thread sleeps on the queue's receivers (for at most `time_out`
    /// when `timed`), then resumes with `ipc_mqueue_receive_resume`.
    Block { timed: bool, time_out: mach_msg_timeout_t },
}

pub open spec fn q_msgs(m: MState, id: MqueueId) -> Seq<mach_msg_header_t> {
    match id {
        MqueueId::Port { port } => m.ports[port as int].messages,
        MqueueId::Pset { pset } => m.psets[pset as int].messages,
    }
}

pub open spec fn q_rcvs(m: MState, id: MqueueId) -> Seq<u32> {
    match id {
        MqueueId::Port { port } => m.ports[port as int].receivers,
        MqueueId::Pset { pset } => m.psets[pset as int].receivers,
    }
}

/// The state with the queue's messages and receivers replaced.
pub open spec fn with_queue(m: MState, id: MqueueId, msgs: Seq<mach_msg_header_t>, rcvs: Seq<u32>) -> MState {
    match id {
        MqueueId::Port { port } => MState {
            ports: m.ports.update(port as int, PortModel { messages: msgs, receivers: rcvs, ..m.ports[port as int] }),
            ..m
        },
        MqueueId::Pset { pset } => MState {
            psets: m.psets.update(pset as int, PsetModel { messages: msgs, receivers: rcvs, ..m.psets[pset as int] }),
            ..m
        },
    }
}

/// A message received from its port: a live port counts it off and lets
/// its first blocked sender go when the queue is back under its limit.
pub open spec fn got(m: MState, kmsg: mach_msg_header_t, seqno: u32) -> (RcvStep, MState) {
    let p = kmsg.msgh_remote_port;
    let q = m.ports[p as int];
    let mc = (q.msgcount - 1) as u32;
    if !q.active {
        (RcvStep::Got { kmsg, seqno }, m)
    } else if q.blocked.len() > 0 && mc < q.qlimit {
        let snd = q.blocked[0];
        (RcvStep::Got { kmsg, seqno }, MState {
            ports: m.ports.update(p as int, PortModel { msgcount: mc, blocked: q.blocked.drop_first(), ..q }),
            threads: m.threads.update(snd as int, thread { ith_state: MACH_MSG_SUCCESS, ..m.threads[snd as int] }),
            acts: m.acts.push(IpcAction::WakeThread { thread: snd }),
            ..m
        })
    } else {
        (RcvStep::Got { kmsg, seqno }, MState { ports: m.ports.update(p as int, PortModel { msgcount: mc, ..q }), ..m })
    }
}

/// One pass of `ipc_mqueue_receive` for the thread `me`: take the first
/// message if it fits in `max_size` (the port's sequence number goes with
/// it), fail for a message too large or a receive out of time, or block.
pub open spec fn rcv_attempt(m: MState, id: MqueueId, option: i32, max_size: u32, time_out: u32, me: u32) -> (RcvStep, MState) {
    let msgs = q_msgs(m, id);
    if msgs.len() > 0 {
        let head = msgs[0];
        if head.msgh_size > max_size {
            (RcvStep::Fail { mr: MACH_RCV_TOO_LARGE, size: head.msgh_size }, m)
        } else {
            let m1 = with_queue(m, id, msgs.drop_first(), q_rcvs(m, id));
            let p = head.msgh_remote_port;
            let q = m1.ports[p as int];
            let m2 = MState { ports: m1.ports.update(p as int, PortModel { seqno: q.seqno.wrapping_add(1), ..q }), ..m1 };
            got(m2, head, q.seqno)
        }
    } else if option & MACH_RCV_TIMEOUT != 0 && time_out == 0 {
        (RcvStep::Fail { mr: MACH_RCV_TIMED_OUT, size: 0 }, m)
    } else {
        let m1 = with_queue(m, id, msgs, q_rcvs(m, id).push(me));
        (
            RcvStep::Block { timed: option & MACH_RCV_TIMEOUT != 0, time_out },
            MState {
                threads: m1.threads.update(me as int, thread {
                    ith_state: MACH_RCV_IN_PROGRESS,
                    ith_msize: max_size,
                    ..m1.threads[me as int]
                }),
                ..m1
            },
        )
    }
}

/// The message came from a port, and a live port counts it.
pub open spec fn msg_ok(m: MState, kmsg: mach_msg_header_t) -> bool {
    let p = kmsg.msgh_remote_port;
    &&& 0 < p < m.ports.len()
    &&& m.ports[p as int].active ==> m.ports[p as int].msgcount > 0
    &&& m.ports[p as int].active && m.ports[p as int].blocked.len() > 0 ==> m.ports[p as int].blocked[0] < m.threads.len()
}

/// What a receive pass needs: the queue, the thread, and queued messages
/// whose ports count them.
pub open spec fn rcv_ok(m: MState, id: MqueueId, me: u32) -> bool {
    &&& match id {
        MqueueId::Port { port } => port < m.ports.len(),
        MqueueId::Pset { pset } => pset < m.psets.len(),
    }
    &&& me < m.threads.len()
    &&& q_msgs(m, id).len() > 0 ==> msg_ok(with_queue(m, id, q_msgs(m, id).drop_first(), q_rcvs(m, id)), q_msgs(m, id)[0])
}

fn got_exec(
    ports: &mut Vec<ipc_port>,
    psets: &Vec<ipc_pset>,
    threads: &mut Vec<thread>,
    acts: &mut Vec<IpcAction>,
    kmsg: mach_msg_header_t,
    seqno: u32,
) -> (r: RcvStep)
    requires
        msg_ok(mst(*old(ports), *psets, *old(threads), *old(acts)), kmsg),
    ensures
        (r, mst(*final(ports), *psets, *final(threads), *final(acts))) == got(mst(*old(ports), *psets, *old(threads), *old(acts)), kmsg, seqno),
{
    let ghost m0 = mst(*ports, *psets, *threads, *acts);
    let pi = kmsg.msgh_remote_port as usize;
    if !ports[pi].ip_active {
        return RcvStep::Got { kmsg, seqno };
    }
    let mc = ports[pi].ip_msgcount - 1;
    ports[pi].ip_msgcount = mc;
    if ports[pi].ip_blocked.len() > 0 && mc < ports[pi].ip_qlimit {
        let snd = ports[pi].ip_blocked.remove(0);
        let t = threads[snd as usize];
        threads.set(snd as usize, thread { ith_state: MACH_MSG_SUCCESS, ..t });
        acts.push(IpcAction::WakeThread { thread: snd });
    }
    proof {
        let r = got(m0, kmsg, seqno).1;
        assert(pv(*ports) =~= r.ports);
    }
    RcvStep::Got { kmsg, seqno }
}

/// `ipc_mqueue_receive`: receive on queue `id` for the thread `me`.
pub fn ipc_mqueue_receive(
    ports: &mut Vec<ipc_port>,
    psets: &mut Vec<ipc_pset>,
    threads: &mut Vec<thread>,
    acts: &mut Vec<IpcAction>,
    id: MqueueId,
    option: mach_msg_option_t,
    max_size: mach_msg_size_t,
    time_out: mach_msg_timeout_t,
    me: u32,
) -> (r: RcvStep)
    requires
        rcv_ok(mst(*old(ports), *old(psets), *old(threads), *old(acts)), id, me),
    ensures
        (r, mst(*final(ports), *final(psets), *final(threads), *final(acts)))
            == rcv_attempt(mst(*old(ports), *old(psets), *old(threads), *old(acts)), id, option, max_size, time_out, me),
{
    let ghost m0 = mst(*ports, *psets, *threads, *acts);
    let mut queue = ipc_mqueue { imq_messages: Vec::new(), imq_threads: Vec::new() };
    match id {
        MqueueId::Port { port } => std::mem::swap(&mut queue, &mut ports[port as usize].ip_messages),
        MqueueId::Pset { pset } => std::mem::swap(&mut queue, &mut psets[pset as usize].ips_messages),
    }
    let ghost msgs = queue.imq_messages@;
    let ghost rcvs = queue.imq_threads@;
    assert(msgs == q_msgs(m0, id) && rcvs == q_rcvs(m0, id));
    if queue.imq_messages.len() > 0 {
        let head = queue.imq_messages[0];
        if head.msgh_size > max_size {
            match id {
                MqueueId::Port { port } => std::mem::swap(&mut queue, &mut ports[port as usize].ip_messages),
                MqueueId::Pset { pset } => std::mem::swap(&mut queue, &mut psets[pset as usize].ips_messages),
            }
            proof {
                assert(pv(*ports) =~= m0.ports);
                assert(psv(*psets) =~= m0.psets);
            }
            return RcvStep::Fail { mr: MACH_RCV_TOO_LARGE, size: head.msgh_size };
        }
        queue.imq_messages.remove(0);
        match id {
            MqueueId::Port { port } => std::mem::swap(&mut queue, &mut ports[port as usize].ip_messages),
            MqueueId::Pset { pset } => std::mem::swap(&mut queue, &mut psets[pset as usize].ips_messages),
        }
        let ghost m1 = with_queue(m0, id, msgs.drop_first(), rcvs);
        proof {
            assert(pv(*ports) =~= m1.ports);
            assert(psv(*psets) =~= m1.psets);
        }
        let pi = head.msgh_remote_port as usize;
        let seqno = ports[pi].ip_seqno;
        ports[pi].ip_seqno = seqno.wrapping_add(1);
        proof {
            let q = m1.ports[pi as int];
            assert(pv(*ports) =~= m1.ports.update(pi as int, PortModel { seqno: q.seqno.wrapping_add(1), ..q }));
        }
        return got_exec(ports, psets, threads, acts, head, seqno);
    }
    if option & MACH_RCV_TIMEOUT != 0 && time_out == 0 {
        match id {
            MqueueId::Port { port } => std::mem::swap(&mut queue, &mut ports[port as usize].ip_messages),
            MqueueId::Pset { pset } => std::mem::swap(&mut queue, &mut psets[pset as usize].ips_messages),
        }
        proof {
            assert(pv(*ports) =~= m0.ports);
            assert(psv(*psets) =~= m0.psets);
        }
        return RcvStep::Fail { mr: MACH_RCV_TIMED_OUT, size: 0 };
    }
    ipc_thread_enqueue(&mut queue.imq_threads, me);
    match id {
        MqueueId::Port { port } => std::mem::swap(&mut queue, &mut ports[port as usize].ip_messages),
        MqueueId::Pset { pset } => std::mem::swap(&mut queue, &mut psets[pset as usize].ips_messages),
    }
    let t = threads[me as usize];
    threads.set(me as usize, thread { ith_state: MACH_RCV_IN_PROGRESS, ith_msize: max_size, ..t });
    proof {
        let m1 = with_queue(m0, id, msgs, rcvs.push(me));
        assert(pv(*ports) =~= m1.ports);
        assert(psv(*psets) =~= m1.psets);
    }
    RcvStep::Block { timed: option & MACH_RCV_TIMEOUT != 0, time_out }
}

/// `ipc_mqueue_receive` once the thread `me` blocked by it woke: a sender
/// handed it a message, or told it the message is too large, or the port
/// died or moved; or the wait ended by itself, and the receiver leaves the
/// queue's receivers and gives up when interrupted or tries once more,
/// without waiting, when it timed out.
pub open spec fn rcv_resume_spec(m: MState, id: MqueueId, option: i32, max_size: u32, time_out: u32, me: u32, wait_result: i32)
    -> (RcvStep, MState)
{
    let t = m.threads[me as int];
    if t.ith_state == MACH_MSG_SUCCESS {
        got(m, t.ith_kmsg, t.ith_seqno)
    } else if t.ith_state == MACH_RCV_TOO_LARGE {
        (RcvStep::Fail { mr: MACH_RCV_TOO_LARGE, size: t.ith_msize }, m)
    } else if t.ith_state == MACH_RCV_PORT_DIED || t.ith_state == MACH_RCV_PORT_CHANGED {
        (RcvStep::Fail { mr: t.ith_state, size: 0 }, m)
    } else {
        let m1 = with_queue(m, id, q_msgs(m, id), without(q_rcvs(m, id), me));
        if wait_result == THREAD_INTERRUPTED {
            (RcvStep::Fail { mr: MACH_RCV_INTERRUPTED, size: 0 }, m1)
        } else {
            rcv_attempt(m1, id, option, max_size, 0, me)
        }
    }
}

/// `ipc_mqueue_receive`, after the thread `me` blocked by it woke with
/// `wait_result`.
pub fn ipc_mqueue_receive_resume(
    ports: &mut Vec<ipc_port>,
    psets: &mut Vec<ipc_pset>,
    threads: &mut Vec<thread>,
    acts: &mut Vec<IpcAction>,
    id: MqueueId,
    option: mach_msg_option_t,
    max_size: mach_msg_size_t,
    time_out: mach_msg_timeout_t,
    me: u32,
    wait_result: i32,
) -> (r: RcvStep)
    requires
        rcv_ok(mst(*old(ports), *old(psets), *old(threads), *old(acts)), id, me),
        ({
            let m = mst(*old(ports), *old(psets), *old(threads), *old(acts));
            let t = old(threads)[me as int];
            &&& t.ith_state == MACH_MSG_SUCCESS || t.ith_state == MACH_RCV_TOO_LARGE || t.ith_state == MACH_RCV_PORT_DIED
                || t.ith_state == MACH_RCV_PORT_CHANGED || t.ith_state == MACH_RCV_IN_PROGRESS
            &&& t.ith_state == MACH_MSG_SUCCESS ==> msg_ok(m, t.ith_kmsg)
            &&& t.ith_state == MACH_RCV_IN_PROGRESS ==> {
                &&& q_rcvs(m, id).contains(me)
                &&& wait_result == THREAD_INTERRUPTED || wait_result == THREAD_TIMED_OUT
                &&& wait_result == THREAD_TIMED_OUT ==> option & MACH_RCV_TIMEOUT != 0
            }
        }),
    ensures
        (r, mst(*final(ports), *final(psets), *final(threads), *final(acts)))
            == rcv_resume_spec(mst(*old(ports), *old(psets), *old(threads), *old(acts)), id, option, max_size, time_out, me, wait_result),
{
    let ghost m0 = mst(*ports, *psets, *threads, *acts);
    let t = threads[me as usize];
    if t.ith_state == MACH_MSG_SUCCESS {
        return got_exec(ports, psets, threads, acts, t.ith_kmsg, t.ith_seqno);
    }
    if t.ith_state == MACH_RCV_TOO_LARGE {
        return RcvStep::Fail { mr: MACH_RCV_TOO_LARGE, size: t.ith_msize };
    }
    if t.ith_state == MACH_RCV_PORT_DIED || t.ith_state == MACH_RCV_PORT_CHANGED {
        return RcvStep::Fail { mr: t.ith_state, size: 0 };
    }
    let mut queue = ipc_mqueue { imq_messages: Vec::new(), imq_threads: Vec::new() };
    match id {
        MqueueId::Port { port } => std::mem::swap(&mut queue, &mut ports[port as usize].ip_messages),
        MqueueId::Pset { pset } => std::mem::swap(&mut queue, &mut psets[pset as usize].ips_messages),
    }
    assert(queue.imq_threads@ == q_rcvs(m0, id));
    ipc_thread_rmqueue(&mut queue.imq_threads, me);
    match id {
        MqueueId::Port { port } => std::mem::swap(&mut queue, &mut ports[port as usize].ip_messages),
        MqueueId::Pset { pset } => std::mem::swap(&mut queue, &mut psets[pset as usize].ips_messages),
    }
    proof {
        let m1 = with_queue(m0, id, q_msgs(m0, id), without(q_rcvs(m0, id), me));
        assert(pv(*ports) =~= m1.ports);
        assert(psv(*psets) =~= m1.psets);
    }
    if wait_result == THREAD_INTERRUPTED {
        return RcvStep::Fail { mr: MACH_RCV_INTERRUPTED, size: 0 };
    }
    ipc_mqueue_receive(ports, psets, threads, acts, id, option, max_size, 0, me)
}

// ─── Laws ────────────────────────────────────────────────────────

/// Messages are received in the order they were sent: a message sent to a
/// live port, not in a port set, that has room and no waiting receiver
/// goes to the back of the port's queue, counted.
pub proof fn law_send_appends(m: MState, msg: mach_msg_header_t, option: i32, time_out: u32, me: u32)
    requires
        send_ok(m, msg, me),
        m.ports[msg.msgh_remote_port as int].active,
        m.ports[msg.msgh_remote_port as int].msgcount < m.ports[msg.msgh_remote_port as int].qlimit,
        m.ports[msg.msgh_remote_port as int].pset == 0,
        m.ports[msg.msgh_remote_port as int].receivers.len() == 0,
        msg.msgh_bits & MACH_MSGH_BITS_CIRCULAR == 0,
    ensures
        ({
            let (step, m1) = send_attempt(m, msg, option, time_out, me);
            let p = msg.msgh_remote_port as int;
            &&& step == SendStep::Done { mr: MACH_MSG_SUCCESS }
            &&& m1.ports[p].messages == m.ports[p].messages.push(msg)
            &&& m1.ports[p].msgcount == m.ports[p].msgcount + 1
            &&& m1.ports[p].seqno == m.ports[p].seqno
        }),
{
}

/// ... and a receive takes the message at the front of the queue, with the
/// port's next sequence number, when it fits.
pub proof fn law_receive_takes_first(m: MState, p: u32, option: i32, max_size: u32, time_out: u32, me: u32)
    requires
        rcv_ok(m, MqueueId::Port { port: p }, me),
        m.ports[p as int].messages.len() > 0,
        m.ports[p as int].messages[0].msgh_remote_port == p,
        m.ports[p as int].messages[0].msgh_size <= max_size,
    ensures
        ({
            let (step, m1) = rcv_attempt(m, MqueueId::Port { port: p }, option, max_size, time_out, me);
            &&& step == RcvStep::Got { kmsg: m.ports[p as int].messages[0], seqno: m.ports[p as int].seqno }
            &&& m1.ports[p as int].messages == m.ports[p as int].messages.drop_first()
            &&& m1.ports[p as int].seqno == m.ports[p as int].seqno.wrapping_add(1)
        }),
{
}

/// A message sent to an idle port comes back out of it, whole, with the
/// port's sequence number, and the port's message count is back where it
/// was.
pub proof fn law_send_then_receive(m: MState, msg: mach_msg_header_t, me: u32, option: i32, max_size: u32, time_out: u32, rcv: u32)
    requires
        send_ok(m, msg, me),
        rcv < m.threads.len(),
        m.ports[msg.msgh_remote_port as int].active,
        m.ports[msg.msgh_remote_port as int].msgcount < m.ports[msg.msgh_remote_port as int].qlimit,
        m.ports[msg.msgh_remote_port as int].pset == 0,
        m.ports[msg.msgh_remote_port as int].receivers.len() == 0,
        m.ports[msg.msgh_remote_port as int].messages.len() == 0,
        m.ports[msg.msgh_remote_port as int].blocked.len() == 0,
        msg.msgh_bits & MACH_MSGH_BITS_CIRCULAR == 0,
        msg.msgh_size <= max_size,
    ensures
        ({
            let p = msg.msgh_remote_port;
            let m1 = send_attempt(m, msg, 0, 0, me).1;
            let (step, m2) = rcv_attempt(m1, MqueueId::Port { port: p }, option, max_size, time_out, rcv);
            &&& step == RcvStep::Got { kmsg: msg, seqno: m.ports[p as int].seqno }
            &&& m2.ports[p as int].msgcount == m.ports[p as int].msgcount
            &&& m2.ports[p as int].messages.len() == 0
        }),
{
    let p = msg.msgh_remote_port;
    law_send_appends(m, msg, 0, 0, me);
    let m1 = send_attempt(m, msg, 0, 0, me).1;
    assert(m1.ports[p as int].messages =~= seq![msg]);
    assert(msg_ok(with_queue(m1, MqueueId::Port { port: p }, q_msgs(m1, MqueueId::Port { port: p }).drop_first(),
        q_rcvs(m1, MqueueId::Port { port: p })), msg));
    law_receive_takes_first(m1, p, option, max_size, time_out, rcv);
}

// ─── The queue a receive names ───────────────────────────────────

/// `ipc_mqueue_copyin`: the queue a receive on `name` waits on, and the
/// object holding it (a port gets a reference).  A receive right whose
/// port is in an active port set gives `MACH_RCV_IN_SET`; one in a dead
/// set leaves it first.  Names of other rights, and a dead space, give
/// `MACH_RCV_INVALID_NAME`.
pub open spec fn mqueue_copyin_spec(space: ipc_space, m: MState, name: u32) -> (Result<(MqueueId, u32), i32>, MState) {
    if !space.is_active {
        (Err(MACH_RCV_INVALID_NAME), m)
    } else {
        match lookup_spec(space, name) {
            None => (Err(MACH_RCV_INVALID_NAME), m),
            Some(i) => {
                let e = space.is_entries[i];
                let o = e.ie_object;
                if e.ie_bits & MACH_PORT_TYPE_RECEIVE != 0 {
                    let s = m.ports[o as int].pset;
                    if s != 0 && m.psets[s as int].active {
                        (Err(MACH_RCV_IN_SET), m)
                    } else {
                        let (id, m1) = lock_mqueue_spec(m, o);
                        let q = m1.ports[o as int];
                        (Ok((id, o)), MState {
                            ports: m1.ports.update(o as int, PortModel { references: (q.references + 1) as u32, ..q }),
                            ..m1
                        })
                    }
                } else if e.ie_bits & MACH_PORT_TYPE_PORT_SET != 0 {
                    (Ok((MqueueId::Pset { pset: o }, o)), m)
                } else {
                    (Err(MACH_RCV_INVALID_NAME), m)
                }
            },
        }
    }
}

/// What finding the queue relies on: the port a receive right names is
/// alive with consistent queues and room for a reference; the set a
/// port-set name names exists.
pub open spec fn mqueue_copyin_ok(space: ipc_space, m: MState, name: u32) -> bool {
    &&& names_unique(space)
    &&& lookup_spec(space, name) matches Some(i) ==> {
        let e = space.is_entries[i];
        let o = e.ie_object;
        &&& e.ie_bits & MACH_PORT_TYPE_RECEIVE != 0 ==> {
            &&& 0 < o < m.ports.len()
            &&& port_mqueue_ok(m, o)
            &&& m.ports[o as int].references < u32::MAX
        }
        &&& e.ie_bits & MACH_PORT_TYPE_RECEIVE == 0 && e.ie_bits & MACH_PORT_TYPE_PORT_SET != 0 ==> o < m.psets.len()
    }
}

/// `ipc_mqueue_copyin`.
pub fn ipc_mqueue_copyin(
    space: &ipc_space,
    ports: &mut Vec<ipc_port>,
    psets: &mut Vec<ipc_pset>,
    threads: &mut Vec<thread>,
    acts: &mut Vec<IpcAction>,
    name: mach_port_name_t,
) -> (r: Result<(MqueueId, u32), mach_msg_return_t>)
    requires
        mqueue_copyin_ok(*space, mst(*old(ports), *old(psets), *old(threads), *old(acts)), name),
    ensures
        (r, mst(*final(ports), *final(psets), *final(threads), *final(acts)))
            == mqueue_copyin_spec(*space, mst(*old(ports), *old(psets), *old(threads), *old(acts)), name),
{
    if !space.is_active {
        return Err(MACH_RCV_INVALID_NAME);
    }
    let i = match ipc_entry_lookup(space, name) {
        Some(i) => i,
        None => {
            return Err(MACH_RCV_INVALID_NAME);
        },
    };
    let e = get_entry(space, i);
    let o = e.ie_object;
    if e.ie_bits & MACH_PORT_TYPE_RECEIVE != 0 {
        let s = ports[o as usize].ip_pset;
        if s != 0 && psets[s as usize].ips_active {
            return Err(MACH_RCV_IN_SET);
        }
        let ghost m0 = mst(*ports, *psets, *threads, *acts);
        proof { lemma_lock_len(m0, o); }
        let id = ipc_port_lock_mqueue(ports, psets, threads, acts, o);
        let ghost m1 = mst(*ports, *psets, *threads, *acts);
        assert(ports.len() == m0.ports.len());
        ports[o as usize].ip_references = ports[o as usize].ip_references + 1;
        proof {
            let q = m1.ports[o as int];
            assert(pv(*ports) =~= m1.ports.update(o as int, PortModel { references: (q.references + 1) as u32, ..q }));
        }
        Ok((id, o))
    } else if e.ie_bits & MACH_PORT_TYPE_PORT_SET != 0 {
        Ok((MqueueId::Pset { pset: o }, o))
    } else {
        Err(MACH_RCV_INVALID_NAME)
    }
}

} // verus!
