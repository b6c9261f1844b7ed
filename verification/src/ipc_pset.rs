//! Port sets: moving a port's messages between its own queue and its set's
//! queue as it joins or leaves the set, waking the receivers of a queue
//! that changed, and creating and destroying sets.
//!
//! A port set is named by its index in a vector of sets (index 0 stands
//! for no set).  While a port belongs to a set, the messages sent to it
//! wait on the set's queue.

use vstd::prelude::*;
use crate::ipc_mqueue::{handoff, handoff_exec, mst, psv, threads_ok, thread, MState, PsetModel};
use crate::ipc_entry::{first_free, free_ok, keys_unique, name_used, name_valid};
use crate::ipc_object::{ipc_object_alloc, ipc_object_alloc_name, lemma_alloc_rights, object_alloc_name_spec, object_alloc_spec};
use crate::ipc_right::{ipc_mqueue, ipc_port, ipc_pset, ipc_space, pv, IpcAction, PortModel};
use crate::mach_types::{
    kern_return_t, mach_msg_header_t, mach_msg_return_t, mach_port_name_t, KERN_INVALID_TASK, KERN_NOT_IN_SET,
    KERN_SUCCESS, MACH_PORT_TYPE_PORT_SET, MACH_RCV_PORT_CHANGED, MACH_RCV_PORT_DIED,
};

verus! {

// ─── Queues ──────────────────────────────────────────────────────

/// A queue whose receivers are threads and which holds no message while a
/// receiver waits.
pub open spec fn queue_ok(rcvs: Seq<u32>, msgs: Seq<mach_msg_header_t>, threads: Seq<thread>) -> bool {
    &&& threads_ok(rcvs, threads)
    &&& rcvs.len() > 0 ==> msgs.len() == 0
}

/// Every message of `msgs` is sent to `port`.
pub open spec fn own_msgs(msgs: Seq<mach_msg_header_t>, port: u32) -> bool {
    forall|i: int| 0 <= i < msgs.len() ==> #[trigger] msgs[i].msgh_remote_port == port
}

/// `ipc_mqueue_move`: the messages of the source queue sent to `port` are
/// taken off it and handed, in order, to the receivers waiting on the
/// destination queue, or queued there; the other messages stay.  Returns
/// the messages left in the source, the destination's receivers and
/// messages, the threads, the work handed on, and the port's next
/// sequence number.
pub open spec fn move_spec(src: Seq<mach_msg_header_t>, port: u32, rcvs: Seq<u32>, msgs: Seq<mach_msg_header_t>,
    threads: Seq<thread>, acts: Seq<IpcAction>, seqno: u32)
    -> (Seq<mach_msg_header_t>, Seq<u32>, Seq<mach_msg_header_t>, Seq<thread>, Seq<IpcAction>, u32)
    decreases src.len(),
{
    if src.len() == 0 {
        (src, rcvs, msgs, threads, acts, seqno)
    } else {
        let (k, r1, m1, t1, a1, s1) = move_spec(src.drop_last(), port, rcvs, msgs, threads, acts, seqno);
        let m = src.last();
        if m.msgh_remote_port == port {
            let (r2, m2, t2, a2, s2) = handoff(r1, m1, t1, a1, s1, m);
            (k, r2, m2, t2, a2, s2)
        } else {
            (k.push(m), r1, m1, t1, a1, s1)
        }
    }
}

/// Handing a message over keeps the threads and the queue consistent, and
/// at most queues the message.
pub proof fn lemma_handoff_keeps(rcvs: Seq<u32>, msgs: Seq<mach_msg_header_t>, threads: Seq<thread>,
    acts: Seq<IpcAction>, seqno: u32, msg: mach_msg_header_t)
    requires
        queue_ok(rcvs, msgs, threads),
    ensures
        ({
            let (r, m, t, a, s) = handoff(rcvs, msgs, threads, acts, seqno, msg);
            &&& t.len() == threads.len()
            &&& queue_ok(r, m, t)
            &&& (m == msgs || m == msgs.push(msg))
        }),
    decreases rcvs.len(),
{
    if rcvs.len() > 0 {
        let r = rcvs[0];
        let t = threads[r as int];
        if msg.msgh_size > t.ith_msize {
            let t1 = threads.update(r as int, thread { ith_state: crate::mach_types::MACH_RCV_TOO_LARGE, ith_msize: msg.msgh_size, ..t });
            assert forall|i: int| 0 <= i < rcvs.drop_first().len() implies #[trigger] rcvs.drop_first()[i] < t1.len() by {
                assert(rcvs.drop_first()[i] == rcvs[i + 1]);
            }
            lemma_handoff_keeps(rcvs.drop_first(), msgs, t1, acts.push(IpcAction::WakeThread { thread: r }), seqno, msg);
        } else {
            assert forall|i: int| 0 <= i < rcvs.drop_first().len() implies #[trigger] rcvs.drop_first()[i] < threads.len() by {
                assert(rcvs.drop_first()[i] == rcvs[i + 1]);
            }
        }
    }
}

/// Moving messages keeps the threads and the destination queue
/// consistent, adds only messages sent to the port to it, and leaves in
/// the source only messages sent elsewhere.
pub proof fn lemma_move_keeps(src: Seq<mach_msg_header_t>, port: u32, rcvs: Seq<u32>, msgs: Seq<mach_msg_header_t>,
    threads: Seq<thread>, acts: Seq<IpcAction>, seqno: u32)
    requires
        queue_ok(rcvs, msgs, threads),
    ensures
        ({
            let (k, r, m, t, a, s) = move_spec(src, port, rcvs, msgs, threads, acts, seqno);
            &&& t.len() == threads.len()
            &&& queue_ok(r, m, t)
            &&& k.len() <= src.len()
            &&& (own_msgs(msgs, port) ==> own_msgs(m, port))
            &&& (own_msgs(src, port) ==> k.len() == 0)
        }),
    decreases src.len(),
{
    if src.len() > 0 {
        lemma_move_keeps(src.drop_last(), port, rcvs, msgs, threads, acts, seqno);
        let (k, r1, m1, t1, a1, s1) = move_spec(src.drop_last(), port, rcvs, msgs, threads, acts, seqno);
        let m = src.last();
        if own_msgs(src, port) {
            assert(own_msgs(src.drop_last(), port)) by {
                assert forall|i: int| 0 <= i < src.drop_last().len() implies #[trigger] src.drop_last()[i].msgh_remote_port == port by {
                    assert(src.drop_last()[i] == src[i]);
                }
            }
            assert(src[src.len() - 1].msgh_remote_port == port);
        }
        if m.msgh_remote_port == port {
            lemma_handoff_keeps(r1, m1, t1, a1, s1, m);
            let m2 = handoff(r1, m1, t1, a1, s1, m).1;
            if own_msgs(msgs, port) {
                assert forall|i: int| 0 <= i < m2.len() implies #[trigger] m2[i].msgh_remote_port == port by {
                    if m2 != m1 && i == m1.len() {
                        assert(m2[i] == m);
                    } else {
                        assert(m2[i] == m1[i]);
                    }
                }
            }
        }
    }
}

/// `ipc_mqueue_move`: move the messages of `source` sent to `port` onto
/// `dest`, handing each to a waiting receiver when one takes it; `seqno`
/// is the port's sequence number, and the next one is returned.
pub fn ipc_mqueue_move(
    dest: &mut ipc_mqueue,
    source: &mut ipc_mqueue,
    threads: &mut Vec<thread>,
    acts: &mut Vec<IpcAction>,
    seqno: u32,
    port: u32,
) -> (next: u32)
    requires
        queue_ok(old(dest).imq_threads@, old(dest).imq_messages@, old(threads)@),
    ensures
        ({
            let (k, r, m, t, a, s) = move_spec(old(source).imq_messages@, port, old(dest).imq_threads@,
                old(dest).imq_messages@, old(threads)@, old(acts)@, seqno);
            &&& final(source).imq_messages@ == k
            &&& final(source).imq_threads@ == old(source).imq_threads@
            &&& final(dest).imq_threads@ == r
            &&& final(dest).imq_messages@ == m
            &&& final(threads)@ == t
            &&& final(acts)@ == a
            &&& next == s
        }),
{
    let ghost src = source.imq_messages@;
    let ghost r0 = dest.imq_threads@;
    let ghost m0 = dest.imq_messages@;
    let ghost t0 = threads@;
    let ghost a0 = acts@;
    let mut kept: Vec<mach_msg_header_t> = Vec::new();
    let mut s = seqno;
    let mut i: usize = 0;
    while i < source.imq_messages.len()
        invariant
            i <= source.imq_messages.len(),
            source.imq_messages@ == src,
            source.imq_threads@ == old(source).imq_threads@,
            src == old(source).imq_messages@,
            r0 == old(dest).imq_threads@,
            m0 == old(dest).imq_messages@,
            t0 == old(threads)@,
            a0 == old(acts)@,
            queue_ok(r0, m0, t0),
            queue_ok(dest.imq_threads@, dest.imq_messages@, threads@),
            (kept@, dest.imq_threads@, dest.imq_messages@, threads@, acts@, s)
                == move_spec(src.take(i as int), port, r0, m0, t0, a0, seqno),
        decreases source.imq_messages.len() - i,
    {
        let m = source.imq_messages[i];
        proof {
            assert(src.take(i as int + 1).drop_last() =~= src.take(i as int));
            assert(src.take(i as int + 1).last() == m);
        }
        if m.msgh_remote_port == port {
            proof { lemma_handoff_keeps(dest.imq_threads@, dest.imq_messages@, threads@, acts@, s, m); }
            s = handoff_exec(dest, threads, acts, s, m);
        } else {
            kept.push(m);
        }
        i = i + 1;
    }
    proof { assert(src.take(i as int) =~= src); }
    source.imq_messages = kept;
    s
}

/// Every thread of `q` woken with `mr`, in order.
pub open spec fn wake_each(threads: Seq<thread>, q: Seq<u32>, mr: mach_msg_return_t) -> Seq<thread>
    decreases q.len(),
{
    if q.len() == 0 {
        threads
    } else {
        wake_each(threads.update(q[0] as int, thread { ith_state: mr, ..threads[q[0] as int] }), q.drop_first(), mr)
    }
}

/// The work of waking every thread of `q`.
pub open spec fn wakeups(q: Seq<u32>) -> Seq<IpcAction> {
    Seq::new(q.len(), |k: int| IpcAction::WakeThread { thread: q[k] })
}

/// `ipc_mqueue_changed`: wake every receiver waiting on the queue with
/// `mr`.
pub fn ipc_mqueue_changed(mqueue: &mut ipc_mqueue, threads: &mut Vec<thread>, acts: &mut Vec<IpcAction>, mr: mach_msg_return_t)
    requires
        threads_ok(old(mqueue).imq_threads@, old(threads)@),
    ensures
        final(mqueue).imq_threads@.len() == 0,
        final(mqueue).imq_messages@ == old(mqueue).imq_messages@,
        final(threads)@ == wake_each(old(threads)@, old(mqueue).imq_threads@, mr),
        final(acts)@ == old(acts)@ + wakeups(old(mqueue).imq_threads@),
{
    let ghost q0 = mqueue.imq_threads@;
    while mqueue.imq_threads.len() > 0
        invariant
            q0 == old(mqueue).imq_threads@,
            mqueue.imq_messages@ == old(mqueue).imq_messages@,
            mqueue.imq_threads@.len() <= q0.len(),
            mqueue.imq_threads@ == q0.skip(q0.len() - mqueue.imq_threads@.len()),
            threads_ok(mqueue.imq_threads@, threads@),
            wake_each(threads@, mqueue.imq_threads@, mr) == wake_each(old(threads)@, q0, mr),
            acts@ == old(acts)@ + wakeups(q0.take(q0.len() - mqueue.imq_threads@.len())),
        decreases mqueue.imq_threads.len(),
    {
        let ghost q = mqueue.imq_threads@;
        let ghost done = q0.len() - q.len();
        let th = mqueue.imq_threads.remove(0);
        let t = threads[th as usize];
        threads.set(th as usize, thread { ith_state: mr, ..t });
        acts.push(IpcAction::WakeThread { thread: th });
        proof {
            assert(mqueue.imq_threads@ =~= q.drop_first());
            assert(q.drop_first() =~= q0.skip(done + 1));
            assert(q0[done] == th);
            assert(wakeups(q0.take(done + 1)) =~= wakeups(q0.take(done)).push(IpcAction::WakeThread { thread: th }));
            assert forall|i: int| 0 <= i < mqueue.imq_threads@.len() implies #[trigger] mqueue.imq_threads@[i] < threads.len() by {
                assert(mqueue.imq_threads@[i] == q[i + 1]);
            }
        }
    }
    proof { assert(q0.take(q0.len() as int) =~= q0); }
}

// ─── Membership ──────────────────────────────────────────────────

/// Port `p` exists, its own queue is consistent and holds only messages
/// sent to it, and it names an existing set, if any.
pub open spec fn port_queue_ok(m: MState, p: u32) -> bool {
    &&& 0 < p < m.ports.len()
    &&& queue_ok(m.ports[p as int].receivers, m.ports[p as int].messages, m.threads)
    &&& own_msgs(m.ports[p as int].messages, p)
    &&& m.ports[p as int].pset < m.psets.len()
}

/// Set `s` exists and its queue is consistent.
pub open spec fn pset_queue_ok(m: MState, s: u32) -> bool {
    &&& 0 < s < m.psets.len()
    &&& queue_ok(m.psets[s as int].receivers, m.psets[s as int].messages, m.threads)
}

/// `ipc_pset_add`: the port joins the set; its messages move to the
/// set's queue (going to the set's waiting receivers first) and the
/// threads waiting on its own queue wake with `MACH_RCV_PORT_CHANGED`.
pub open spec fn pset_add_spec(m: MState, pset: u32, port: u32) -> MState {
    let q = m.ports[port as int];
    let ps = m.psets[pset as int];
    let (k, r, ms, t, a, s) = move_spec(q.messages, port, ps.receivers, ps.messages, m.threads, m.acts, q.seqno);
    MState {
        ports: m.ports.update(port as int, PortModel { pset, seqno: s, messages: k, receivers: Seq::empty(), ..q }),
        psets: m.psets.update(pset as int, PsetModel { receivers: r, messages: ms, ..ps }),
        threads: wake_each(t, q.receivers, MACH_RCV_PORT_CHANGED),
        acts: a + wakeups(q.receivers),
    }
}

/// `ipc_pset_remove`: the port leaves the set; its messages move from the
/// set's queue back to its own (going to its waiting receivers first).
pub open spec fn pset_remove_spec(m: MState, pset: u32, port: u32) -> MState {
    let q = m.ports[port as int];
    let ps = m.psets[pset as int];
    let (k, r, ms, t, a, s) = move_spec(ps.messages, port, q.receivers, q.messages, m.threads, m.acts, q.seqno);
    MState {
        ports: m.ports.update(port as int, PortModel { pset: 0, seqno: s, receivers: r, messages: ms, ..q }),
        psets: m.psets.update(pset as int, PsetModel { messages: k, ..ps }),
        threads: t,
        acts: a,
    }
}

/// The queues of port `pi` and set `si`, taken out to work on both.
fn take_queues(ports: &mut Vec<ipc_port>, psets: &mut Vec<ipc_pset>, pi: usize, si: usize) -> (r: (ipc_mqueue, ipc_mqueue))
    requires
        pi < old(ports).len(),
        si < old(psets).len(),
    ensures
        r.0.imq_messages@ == old(ports)[pi as int].ip_messages.imq_messages@,
        r.0.imq_threads@ == old(ports)[pi as int].ip_messages.imq_threads@,
        r.1.imq_messages@ == old(psets)[si as int].ips_messages.imq_messages@,
        r.1.imq_threads@ == old(psets)[si as int].ips_messages.imq_threads@,
        final(ports).len() == old(ports).len(),
        final(psets).len() == old(psets).len(),
        forall|j: int| 0 <= j < final(ports).len() && j != pi ==> #[trigger] final(ports)[j]@ == old(ports)[j]@,
        forall|j: int| 0 <= j < final(psets).len() && j != si ==> #[trigger] final(psets)[j]@ == old(psets)[j]@,
        final(ports)[pi as int]@ == (PortModel { messages: Seq::empty(), receivers: Seq::empty(), ..old(ports)[pi as int]@ }),
        final(psets)[si as int]@ == (PsetModel { messages: Seq::empty(), receivers: Seq::empty(), ..old(psets)[si as int]@ }),
{
    let mut pq = ipc_mqueue { imq_messages: Vec::new(), imq_threads: Vec::new() };
    let mut sq = ipc_mqueue { imq_messages: Vec::new(), imq_threads: Vec::new() };
    std::mem::swap(&mut pq, &mut ports[pi].ip_messages);
    std::mem::swap(&mut sq, &mut psets[si].ips_messages);
    (pq, sq)
}

/// Put the queues of port `pi` and set `si` back.
fn put_queues(ports: &mut Vec<ipc_port>, psets: &mut Vec<ipc_pset>, pi: usize, si: usize, pq: ipc_mqueue, sq: ipc_mqueue)
    requires
        pi < old(ports).len(),
        si < old(psets).len(),
    ensures
        final(ports).len() == old(ports).len(),
        final(psets).len() == old(psets).len(),
        forall|j: int| 0 <= j < final(ports).len() && j != pi ==> #[trigger] final(ports)[j]@ == old(ports)[j]@,
        forall|j: int| 0 <= j < final(psets).len() && j != si ==> #[trigger] final(psets)[j]@ == old(psets)[j]@,
        final(ports)[pi as int]@ == (PortModel { messages: pq.imq_messages@, receivers: pq.imq_threads@, ..old(ports)[pi as int]@ }),
        final(psets)[si as int]@ == (PsetModel { messages: sq.imq_messages@, receivers: sq.imq_threads@, ..old(psets)[si as int]@ }),
{
    let mut pq = pq;
    let mut sq = sq;
    std::mem::swap(&mut pq, &mut ports[pi].ip_messages);
    std::mem::swap(&mut sq, &mut psets[si].ips_messages);
}

/// `ipc_pset_add`: put the port into the set.
pub fn ipc_pset_add(
    ports: &mut Vec<ipc_port>,
    psets: &mut Vec<ipc_pset>,
    threads: &mut Vec<thread>,
    acts: &mut Vec<IpcAction>,
    pset: u32,
    port: u32,
)
    requires
        port_queue_ok(mst(*old(ports), *old(psets), *old(threads), *old(acts)), port),
        pset_queue_ok(mst(*old(ports), *old(psets), *old(threads), *old(acts)), pset),
        old(psets)[pset as int].ips_active,
        old(ports)[port as int].ip_active,
        old(ports)[port as int].ip_pset == 0,
    ensures
        mst(*final(ports), *final(psets), *final(threads), *final(acts))
            == pset_add_spec(mst(*old(ports), *old(psets), *old(threads), *old(acts)), pset, port),
{
    let ghost m0 = mst(*ports, *psets, *threads, *acts);
    let pi = port as usize;
    let si = pset as usize;
    let seqno = ports[pi].ip_seqno;
    ports[pi].ip_pset = pset;
    let (mut pq, mut sq) = take_queues(ports, psets, pi, si);
    proof {
        lemma_move_keeps(pq.imq_messages@, port, sq.imq_threads@, sq.imq_messages@, threads@, acts@, seqno);
    }
    let next = ipc_mqueue_move(&mut sq, &mut pq, threads, acts, seqno, port);
    ipc_mqueue_changed(&mut pq, threads, acts, MACH_RCV_PORT_CHANGED);
    assert(pq.imq_threads@ =~= Seq::<u32>::empty());
    put_queues(ports, psets, pi, si, pq, sq);
    ports[pi].ip_seqno = next;
    proof {
        let r = pset_add_spec(m0, pset, port);
        assert(pv(*ports) =~= r.ports);
        assert(psv(*psets) =~= r.psets);
    }
}

/// `ipc_pset_remove`: take the port out of its set.
pub fn ipc_pset_remove(
    ports: &mut Vec<ipc_port>,
    psets: &mut Vec<ipc_pset>,
    threads: &mut Vec<thread>,
    acts: &mut Vec<IpcAction>,
    pset: u32,
    port: u32,
)
    requires
        port_queue_ok(mst(*old(ports), *old(psets), *old(threads), *old(acts)), port),
        pset_queue_ok(mst(*old(ports), *old(psets), *old(threads), *old(acts)), pset),
        old(ports)[port as int].ip_active,
        old(ports)[port as int].ip_pset == pset,
    ensures
        mst(*final(ports), *final(psets), *final(threads), *final(acts))
            == pset_remove_spec(mst(*old(ports), *old(psets), *old(threads), *old(acts)), pset, port),
{
    let ghost m0 = mst(*ports, *psets, *threads, *acts);
    let pi = port as usize;
    let si = pset as usize;
    let seqno = ports[pi].ip_seqno;
    ports[pi].ip_pset = 0;
    let (mut pq, mut sq) = take_queues(ports, psets, pi, si);
    let next = ipc_mqueue_move(&mut pq, &mut sq, threads, acts, seqno, port);
    put_queues(ports, psets, pi, si, pq, sq);
    ports[pi].ip_seqno = next;
    proof {
        let r = pset_remove_spec(m0, pset, port);
        assert(pv(*ports) =~= r.ports);
        assert(psv(*psets) =~= r.psets);
    }
}

/// Taking the port out of its set leaves its queue consistent and every
/// other set's queue as it was.
pub proof fn lemma_remove_keeps(m: MState, pset: u32, port: u32, other: u32)
    requires
        port_queue_ok(m, port),
        pset_queue_ok(m, pset),
        m.ports[port as int].pset == pset,
        other != pset,
        pset_queue_ok(m, other),
    ensures
        ({
            let m1 = pset_remove_spec(m, pset, port);
            &&& port_queue_ok(m1, port)
            &&& pset_queue_ok(m1, other)
            &&& m1.psets[other as int] == m.psets[other as int]
            &&& m1.ports[port as int].active == m.ports[port as int].active
            &&& m1.ports[port as int].pset == 0
        }),
{
    let q = m.ports[port as int];
    let ps = m.psets[pset as int];
    lemma_move_keeps(ps.messages, port, q.receivers, q.messages, m.threads, m.acts, q.seqno);
}

/// `ipc_pset_move`: move the port from its set, if any, into `nset` (no
/// set when 0).  `KERN_NOT_IN_SET` when the port ends up in no set
/// without having left a live one.
pub open spec fn pset_move_spec(m: MState, port: u32, nset: u32) -> (i32, MState) {
    let oset = m.ports[port as int].pset;
    if oset == nset {
        (if nset == 0 { KERN_NOT_IN_SET } else { KERN_SUCCESS }, m)
    } else if oset == 0 {
        (KERN_SUCCESS, pset_add_spec(m, nset, port))
    } else if nset == 0 {
        (if m.psets[oset as int].active { KERN_SUCCESS } else { KERN_NOT_IN_SET }, pset_remove_spec(m, oset, port))
    } else {
        (KERN_SUCCESS, pset_add_spec(pset_remove_spec(m, oset, port), nset, port))
    }
}

/// What `ipc_pset_move` relies on: the port's queue and those of its set
/// and of the new set are consistent, and the new set is alive.
pub open spec fn pset_move_ok(m: MState, port: u32, nset: u32) -> bool {
    let oset = m.ports[port as int].pset;
    &&& port_queue_ok(m, port)
    &&& m.ports[port as int].active
    &&& oset != 0 ==> pset_queue_ok(m, oset)
    &&& nset != 0 ==> pset_queue_ok(m, nset) && m.psets[nset as int].active
}

/// `ipc_pset_move`.
pub fn ipc_pset_move(
    ports: &mut Vec<ipc_port>,
    psets: &mut Vec<ipc_pset>,
    threads: &mut Vec<thread>,
    acts: &mut Vec<IpcAction>,
    port: u32,
    nset: u32,
) -> (kr: kern_return_t)
    requires
        pset_move_ok(mst(*old(ports), *old(psets), *old(threads), *old(acts)), port, nset),
    ensures
        (kr, mst(*final(ports), *final(psets), *final(threads), *final(acts)))
            == pset_move_spec(mst(*old(ports), *old(psets), *old(threads), *old(acts)), port, nset),
{
    let ghost m0 = mst(*ports, *psets, *threads, *acts);
    let oset = ports[port as usize].ip_pset;
    if oset == nset {
        if nset == 0 {
            return KERN_NOT_IN_SET;
        }
        return KERN_SUCCESS;
    }
    if oset == 0 {
        ipc_pset_add(ports, psets, threads, acts, nset, port);
        return KERN_SUCCESS;
    }
    if nset == 0 {
        let alive = psets[oset as usize].ips_active;
        ipc_pset_remove(ports, psets, threads, acts, oset, port);
        if alive {
            return KERN_SUCCESS;
        }
        return KERN_NOT_IN_SET;
    }
    proof { lemma_remove_keeps(m0, oset, port, nset); }
    ipc_pset_remove(ports, psets, threads, acts, oset, port);
    ipc_pset_add(ports, psets, threads, acts, nset, port);
    KERN_SUCCESS
}

/// `ipc_pset_destroy`: the set dies and the threads waiting on its queue
/// wake with `MACH_RCV_PORT_DIED`.
pub open spec fn pset_destroy_spec(m: MState, pset: u32) -> MState {
    let ps = m.psets[pset as int];
    MState {
        psets: m.psets.update(pset as int, PsetModel { active: false, receivers: Seq::empty(), ..ps }),
        threads: wake_each(m.threads, ps.receivers, MACH_RCV_PORT_DIED),
        acts: m.acts + wakeups(ps.receivers),
        ..m
    }
}

/// `ipc_pset_destroy`.
pub fn ipc_pset_destroy(
    ports: &Vec<ipc_port>,
    psets: &mut Vec<ipc_pset>,
    threads: &mut Vec<thread>,
    acts: &mut Vec<IpcAction>,
    pset: u32,
)
    requires
        pset_queue_ok(mst(*ports, *old(psets), *old(threads), *old(acts)), pset),
        old(psets)[pset as int].ips_active,
    ensures
        mst(*ports, *final(psets), *final(threads), *final(acts))
            == pset_destroy_spec(mst(*ports, *old(psets), *old(threads), *old(acts)), pset),
{
    let ghost m0 = mst(*ports, *psets, *threads, *acts);
    let si = pset as usize;
    psets[si].ips_active = false;
    let mut sq = ipc_mqueue { imq_messages: Vec::new(), imq_threads: Vec::new() };
    std::mem::swap(&mut sq, &mut psets[si].ips_messages);
    ipc_mqueue_changed(&mut sq, threads, acts, MACH_RCV_PORT_DIED);
    assert(sq.imq_threads@ =~= Seq::<u32>::empty());
    std::mem::swap(&mut sq, &mut psets[si].ips_messages);
    proof {
        assert(psv(*psets) =~= pset_destroy_spec(m0, pset).psets);
    }
}

// ─── Laws ────────────────────────────────────────────────────────

/// The messages of `s` sent to `port`, in order.
pub open spec fn sent_to(s: Seq<mach_msg_header_t>, port: u32) -> Seq<mach_msg_header_t> {
    s.filter(|m: mach_msg_header_t| m.msgh_remote_port == port)
}

/// The messages of `s` sent elsewhere, in order.
pub open spec fn sent_elsewhere(s: Seq<mach_msg_header_t>, port: u32) -> Seq<mach_msg_header_t> {
    s.filter(|m: mach_msg_header_t| m.msgh_remote_port != port)
}

/// With no receiver waiting on the destination, moving appends the
/// source's messages for the port to the destination and keeps the rest.
pub proof fn lemma_move_unwatched(src: Seq<mach_msg_header_t>, port: u32, msgs: Seq<mach_msg_header_t>,
    threads: Seq<thread>, acts: Seq<IpcAction>, seqno: u32)
    ensures
        move_spec(src, port, Seq::empty(), msgs, threads, acts, seqno)
            == (sent_elsewhere(src, port), Seq::<u32>::empty(), msgs + sent_to(src, port), threads, acts, seqno),
    decreases src.len(),
{
    if src.len() > 0 {
        lemma_move_unwatched(src.drop_last(), port, msgs, threads, acts, seqno);
        let m = src.last();
        reveal(Seq::filter);
        assert(src.drop_last().push(m) =~= src);
        if m.msgh_remote_port == port {
            assert(msgs + sent_to(src, port) =~= (msgs + sent_to(src.drop_last(), port)).push(m));
        }
    } else {
        reveal(Seq::filter);
        assert(msgs + sent_to(src, port) =~= msgs);
    }
}

/// A port that joins a set no receiver waits on, then leaves it again,
/// finds its messages back in its own queue, in order, and leaves the
/// set's queue as it was.
pub proof fn law_pset_add_then_remove(m: MState, pset: u32, port: u32)
    requires
        port_queue_ok(m, port),
        pset_queue_ok(m, pset),
        m.psets[pset as int].active,
        m.ports[port as int].active,
        m.ports[port as int].pset == 0,
        m.psets[pset as int].receivers.len() == 0,
        forall|i: int| 0 <= i < m.psets[pset as int].messages.len()
            ==> #[trigger] m.psets[pset as int].messages[i].msgh_remote_port != port,
    ensures
        ({
            let m2 = pset_remove_spec(pset_add_spec(m, pset, port), pset, port);
            &&& m2.ports[port as int].messages == m.ports[port as int].messages
            &&& m2.ports[port as int].pset == 0
            &&& m2.ports[port as int].seqno == m.ports[port as int].seqno
            &&& m2.psets[pset as int].messages == m.psets[pset as int].messages
        }),
{
    let q = m.ports[port as int];
    let ps = m.psets[pset as int];
    let own = q.messages;
    let other = ps.messages;
    assert(ps.receivers =~= Seq::<u32>::empty());
    lemma_move_unwatched(own, port, other, m.threads, m.acts, q.seqno);
    reveal(Seq::filter);
    assert(sent_to(own, port) == own) by { lemma_filter_all(own, port); }
    assert(sent_elsewhere(own, port).len() == 0) by { lemma_filter_none(own, port); }
    let m1 = pset_add_spec(m, pset, port);
    let q1 = m1.ports[port as int];
    assert(q1.messages =~= Seq::<mach_msg_header_t>::empty());
    assert(q1.receivers =~= Seq::<u32>::empty());
    lemma_move_unwatched(other + own, port, Seq::empty(), m1.threads, m1.acts, q1.seqno);
    lemma_filter_concat(other, own, port);
    lemma_filter_keep(other, port);
    assert(sent_to(other + own, port) =~= own);
    assert(sent_elsewhere(other + own, port) =~= other);
}

proof fn lemma_filter_all(s: Seq<mach_msg_header_t>, port: u32)
    requires
        own_msgs(s, port),
    ensures
        sent_to(s, port) == s,
    decreases s.len(),
{
    reveal(Seq::filter);
    if s.len() > 0 {
        assert(own_msgs(s.drop_last(), port)) by {
            assert forall|i: int| 0 <= i < s.drop_last().len() implies #[trigger] s.drop_last()[i].msgh_remote_port == port by {
                assert(s.drop_last()[i] == s[i]);
            }
        }
        lemma_filter_all(s.drop_last(), port);
        assert(s[s.len() - 1].msgh_remote_port == port);
        assert(s.drop_last().push(s.last()) =~= s);
    }
}

proof fn lemma_filter_none(s: Seq<mach_msg_header_t>, port: u32)
    requires
        own_msgs(s, port),
    ensures
        sent_elsewhere(s, port).len() == 0,
    decreases s.len(),
{
    reveal(Seq::filter);
    if s.len() > 0 {
        assert(own_msgs(s.drop_last(), port)) by {
            assert forall|i: int| 0 <= i < s.drop_last().len() implies #[trigger] s.drop_last()[i].msgh_remote_port == port by {
                assert(s.drop_last()[i] == s[i]);
            }
        }
        lemma_filter_none(s.drop_last(), port);
        assert(s[s.len() - 1].msgh_remote_port == port);
    }
}

/// Filtering a concatenation filters each part.
proof fn lemma_filter_concat(a: Seq<mach_msg_header_t>, b: Seq<mach_msg_header_t>, port: u32)
    ensures
        sent_to(a + b, port) == sent_to(a, port) + sent_to(b, port),
        sent_elsewhere(a + b, port) == sent_elsewhere(a, port) + sent_elsewhere(b, port),
    decreases b.len(),
{
    if b.len() == 0 {
        assert(a + b =~= a);
        assert(sent_to(b, port).len() == 0) by { reveal(Seq::filter); }
        assert(sent_elsewhere(b, port).len() == 0) by { reveal(Seq::filter); }
        assert(sent_to(a, port) + sent_to(b, port) =~= sent_to(a, port));
        assert(sent_elsewhere(a, port) + sent_elsewhere(b, port) =~= sent_elsewhere(a, port));
    } else {
        let init = b.drop_last();
        let last = b[b.len() - 1];
        let ab = a + b;
        lemma_filter_concat(a, init, port);
        assert(ab.drop_last() =~= a + init);
        assert(ab.last() == last);
        assert(sent_to(ab, port) == if last.msgh_remote_port == port {
            sent_to(ab.drop_last(), port).push(last)
        } else {
            sent_to(ab.drop_last(), port)
        }) by { reveal(Seq::filter); }
        assert(sent_to(b, port) == if last.msgh_remote_port == port {
            sent_to(init, port).push(last)
        } else {
            sent_to(init, port)
        }) by { reveal(Seq::filter); }
        assert(sent_elsewhere(ab, port) == if last.msgh_remote_port != port {
            sent_elsewhere(ab.drop_last(), port).push(last)
        } else {
            sent_elsewhere(ab.drop_last(), port)
        }) by { reveal(Seq::filter); }
        assert(sent_elsewhere(b, port) == if last.msgh_remote_port != port {
            sent_elsewhere(init, port).push(last)
        } else {
            sent_elsewhere(init, port)
        }) by { reveal(Seq::filter); }
        assert((sent_to(a, port) + sent_to(init, port)).push(last) =~= sent_to(a, port) + sent_to(init, port).push(last));
        assert((sent_elsewhere(a, port) + sent_elsewhere(init, port)).push(last)
            =~= sent_elsewhere(a, port) + sent_elsewhere(init, port).push(last));
    }
}

proof fn lemma_filter_keep(s: Seq<mach_msg_header_t>, port: u32)
    requires
        forall|i: int| 0 <= i < s.len() ==> #[trigger] s[i].msgh_remote_port != port,
    ensures
        sent_to(s, port) == Seq::<mach_msg_header_t>::empty(),
        sent_elsewhere(s, port) == s,
    decreases s.len(),
{
    reveal(Seq::filter);
    if s.len() > 0 {
        lemma_filter_keep(s.drop_last(), port);
        assert(s[s.len() - 1].msgh_remote_port != port);
        assert(s.drop_last().push(s.last()) =~= s);
        assert(sent_to(s, port) =~= Seq::<mach_msg_header_t>::empty());
    }
}

// ─── Creating sets ───────────────────────────────────────────────

/// A set just allocated under `name`: alive, with an empty queue.
pub open spec fn new_pset(name: u32) -> PsetModel {
    PsetModel { active: true, name, messages: Seq::empty(), receivers: Seq::empty() }
}

/// Append a new set named `name` to the sets.
fn push_new_pset(psets: &mut Vec<ipc_pset>, name: mach_port_name_t)
    ensures
        psv(*final(psets)) == psv(*old(psets)).push(new_pset(name)),
{
    psets.push(ipc_pset {
        ips_active: true,
        ips_local_name: name,
        ips_messages: ipc_mqueue { imq_messages: Vec::new(), imq_threads: Vec::new() },
    });
    assert(psv(*psets) =~= psv(*old(psets)).push(new_pset(name)));
}

/// `ipc_pset_alloc`: create a port set the space names under a newly
/// allocated name (the head of its free list, or `fresh`); the set's index
/// is the next one.  Returns the status, the name and the set.
pub fn ipc_pset_alloc(space: &mut ipc_space, psets: &mut Vec<ipc_pset>, fresh: mach_port_name_t)
    -> (r: (kern_return_t, mach_port_name_t, u32))
    requires
        free_ok(old(space).is_entries@),
        first_free(old(space).is_entries@) is None ==> name_valid(fresh) && !name_used(old(space).is_entries@, fresh),
        old(space).is_entries.len() < usize::MAX,
        old(psets).len() < u32::MAX,
    ensures
        final(space).is_active == old(space).is_active,
        final(space).is_id == old(space).is_id,
        !old(space).is_active ==> r.0 == KERN_INVALID_TASK && *final(space) == *old(space) && psv(*final(psets)) == psv(*old(psets)),
        old(space).is_active ==> {
            let (ents, i) = object_alloc_spec(old(space).is_entries@, fresh, MACH_PORT_TYPE_PORT_SET, 0, old(psets).len() as u32);
            &&& r == (KERN_SUCCESS, ents[i].ie_name, old(psets).len() as u32)
            &&& final(space).is_entries@ == ents
            &&& psv(*final(psets)) == psv(*old(psets)).push(new_pset(ents[i].ie_name))
        },
{
    let s = psets.len() as u32;
    proof { lemma_alloc_rights(); }
    let (kr, name) = ipc_object_alloc(space, MACH_PORT_TYPE_PORT_SET, 0, s, fresh);
    if kr != KERN_SUCCESS {
        return (kr, 0, 0);
    }
    push_new_pset(psets, name);
    (KERN_SUCCESS, name, s)
}

/// `ipc_pset_alloc_name`: create a port set the space names `name`;
/// `KERN_NAME_EXISTS` when the name denotes a right.  Returns the status
/// and the set.
pub fn ipc_pset_alloc_name(space: &mut ipc_space, psets: &mut Vec<ipc_pset>, name: mach_port_name_t)
    -> (r: (kern_return_t, u32))
    requires
        name_valid(name),
        keys_unique(old(space).is_entries@),
        free_ok(old(space).is_entries@),
        old(space).is_entries.len() < usize::MAX,
        old(psets).len() < u32::MAX,
    ensures
        final(space).is_active == old(space).is_active,
        final(space).is_id == old(space).is_id,
        !old(space).is_active ==> r.0 == KERN_INVALID_TASK && *final(space) == *old(space) && psv(*final(psets)) == psv(*old(psets)),
        old(space).is_active ==> {
            let (kr, ents) = object_alloc_name_spec(old(space).is_entries@, name, MACH_PORT_TYPE_PORT_SET, 0, old(psets).len() as u32);
            &&& r.0 == kr
            &&& final(space).is_entries@ == ents
            &&& kr == KERN_SUCCESS ==> r.1 == old(psets).len() && psv(*final(psets)) == psv(*old(psets)).push(new_pset(name))
            &&& kr != KERN_SUCCESS ==> psv(*final(psets)) == psv(*old(psets))
        },
{
    let s = psets.len() as u32;
    proof { lemma_alloc_rights(); }
    let kr = ipc_object_alloc_name(space, MACH_PORT_TYPE_PORT_SET, 0, s, name);
    if kr != KERN_SUCCESS {
        return (kr, 0);
    }
    push_new_pset(psets, name);
    (KERN_SUCCESS, s)
}

} // verus!
