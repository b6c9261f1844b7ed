//! Port-level operations: the dead-name request table of a port (taking a
//! free slot, growing the table along the size table of `ipc_table`), the
//! check that a receive right in transit would not close a loop of ports,
//! destroying a port, the port-destroyed and no-senders requests, a port's
//! queue limit, sequence number and protected payload, finding the queue
//! its messages go to, and allocating a port.

use vstd::prelude::*;
use crate::ipc_mqueue::{mst, threads_ok, thread, MState, MqueueId};
use crate::ipc_pset::{
    ipc_mqueue_changed, ipc_pset_remove, port_queue_ok, pset_queue_ok, pset_remove_spec, wake_each, wakeups,
};
use crate::ipc_entry::{first_free, free_ok, keys_unique, name_used, name_valid};
use crate::ipc_object::{ipc_object_alloc, ipc_object_alloc_name, lemma_alloc_rights, object_alloc_name_spec, object_alloc_spec};
use crate::ipc_right::{get_port, ipc_mqueue, ipc_port, ipc_pset, ipc_space, pv, release_actions, set_port, DnRequest, IpcAction, PortModel, PortScalars};
use crate::mach_types::{
    mach_msg_header_t, MACH_MSG_SUCCESS, MACH_RCV_PORT_DIED, kern_return_t, mach_port_name_t, KERN_NO_SPACE, KERN_RESOURCE_SHORTAGE, KERN_SUCCESS,
    MACH_PORT_NAME_NULL, KERN_INVALID_TASK, MACH_PORT_QLIMIT_DEFAULT, MACH_PORT_TYPE_RECEIVE,
};

verus! {

// ─── The dead-name request table ─────────────────────────────────

/// The table is well formed against the table of sizes: an empty table
/// has no slot; otherwise the header names the table's own size in
/// `sizes`, and the head of the free list is a free slot (or 0 for none).
pub open spec fn dn_table_ok(t: Seq<DnRequest>, sizes: Seq<u32>) -> bool {
    t.len() > 0 ==> {
        &&& t[0].name < sizes.len()
        &&& sizes[t[0].name as int] == t.len()
        &&& t[0].notify < t.len()
        &&& (t[0].notify != 0 ==> t[t[0].notify as int].name == MACH_PORT_NAME_NULL)
    }
}

/// The sizes grow strictly up to the terminating 0, the first of them
/// leaving room for at least one slot besides the header.
pub open spec fn sizes_ok(sizes: Seq<u32>) -> bool {
    &&& 0 < sizes.len() < 0x1_0000_0000
    &&& sizes[sizes.len() - 1] == 0
    &&& (sizes[0] == 0 || sizes[0] > 1)
    &&& forall|i: int| 0 <= i < sizes.len() - 1 ==> #[trigger] size_step_ok(sizes, i)
}

pub open spec fn size_step_ok(sizes: Seq<u32>, i: int) -> bool {
    sizes[i + 1] != 0 ==> sizes[i] != 0 && sizes[i] < sizes[i + 1]
}

/// The table has a free slot.
pub open spec fn dn_has_room(t: Seq<DnRequest>) -> bool {
    t.len() > 0 && t[0].notify != 0
}

/// The port with `name` registered, to notify `notify`, in the first free
/// slot of its table.
pub open spec fn dn_registered(q: PortModel, name: u32, notify: u32) -> PortModel {
    let t = q.dnrequests;
    let i = t[0].notify as int;
    PortModel {
        dnrequests: t.update(0, DnRequest { name: t[0].name, notify: t[i].notify }).update(
            i,
            DnRequest { name, notify },
        ),
        ..q
    }
}

/// Where in the size table the next size of the table stands.
pub open spec fn grow_index(t: Seq<DnRequest>) -> int {
    if t.len() == 0 { 0 } else { t[0].name + 1 }
}

/// The number of slots the table counts as having (the header alone for a
/// missing table).
pub open spec fn table_size(t: Seq<DnRequest>) -> int {
    if t.len() == 0 { 1 } else { t.len() as int }
}

/// The table grown to `nsize` slots, its size being at `gi` in the size
/// table: the used and free slots are kept, and the new slots are pushed
/// on the free list one after the other, the last of them first.
pub open spec fn grown_table(t: Seq<DnRequest>, gi: int, nsize: nat) -> Seq<DnRequest> {
    let osize = table_size(t);
    let ofree: u32 = if t.len() == 0 { 0 } else { t[0].notify };
    Seq::new(
        nsize,
        |i: int|
            if i == 0 {
                DnRequest { name: gi as u32, notify: (nsize - 1) as u32 }
            } else if i < osize {
                t[i]
            } else if i == osize {
                DnRequest { name: MACH_PORT_NAME_NULL, notify: ofree }
            } else {
                DnRequest { name: MACH_PORT_NAME_NULL, notify: (i - 1) as u32 }
            },
    )
}

/// Law: growing a dead-name table keeps every slot past the header, used
/// or free, where it was; the new slots are free and go on the front of
/// the free list: the header points at the last new slot, each new slot at
/// the one before it, and the first new slot at the old list's head.
pub proof fn law_grow_keeps_requests(t: Seq<DnRequest>, gi: int, nsize: nat)
    requires
        table_size(t) < nsize <= u32::MAX,
    ensures ({
        let g = grown_table(t, gi, nsize);
        let osize = table_size(t);
        &&& g.len() == nsize
        &&& forall|i: int| 0 < i < osize ==> #[trigger] g[i] == t[i]
        &&& g[0].notify == nsize - 1
        &&& forall|i: int| osize <= i < nsize ==> (#[trigger] g[i]).name == MACH_PORT_NAME_NULL
        &&& forall|i: int| osize < i < nsize ==> (#[trigger] g[i]).notify == i - 1
        &&& g[osize].notify == (if t.len() == 0 { 0 } else { t[0].notify })
    }),
{
    let g = grown_table(t, gi, nsize);
    let osize = table_size(t);
    assert(g[0].notify == nsize - 1);
    assert(g[osize].notify == (if t.len() == 0 { 0 } else { t[0].notify }));
    assert forall|i: int| osize < i < nsize implies (#[trigger] g[i]).notify == i - 1 by {
        assert(g[i] == DnRequest { name: MACH_PORT_NAME_NULL, notify: (i - 1) as u32 });
    }
}

/// `ipc_port_dnrequest`: register `name` for a dead-name notification to
/// `soright` in the first free slot of the port's table, returning the
/// slot; `KERN_NO_SPACE` when the table has no free slot.
pub fn ipc_port_dnrequest(ports: &mut Vec<ipc_port>, p: u32, name: mach_port_name_t, soright: u32)
    -> (r: (kern_return_t, u32))
    requires
        p < old(ports).len(),
        old(ports)[p as int].ip_active,
        name != MACH_PORT_NAME_NULL,
        soright != 0,
        old(ports)[p as int].ip_dnrequests.len() > 0 ==> {
            let t = old(ports)[p as int].ip_dnrequests@;
            &&& t[0].notify < t.len()
            &&& (t[0].notify != 0 ==> t[t[0].notify as int].name == MACH_PORT_NAME_NULL)
        },
    ensures
        final(ports).len() == old(ports).len(),
        !dn_has_room(old(ports)[p as int].ip_dnrequests@) ==> r.0 == KERN_NO_SPACE && pv(*final(ports)) == pv(*old(ports)),
        dn_has_room(old(ports)[p as int].ip_dnrequests@) ==> {
            &&& r == (KERN_SUCCESS, old(ports)[p as int].ip_dnrequests@[0].notify)
            &&& pv(*final(ports)) == pv(*old(ports)).update(p as int, dn_registered(old(ports)[p as int]@, name, soright))
        },
{
    let pi = p as usize;
    if ports[pi].ip_dnrequests.len() == 0 {
        return (KERN_NO_SPACE, 0);
    }
    let index = ports[pi].ip_dnrequests[0].notify;
    if index == 0 {
        return (KERN_NO_SPACE, 0);
    }
    let ii = index as usize;
    let next = ports[pi].ip_dnrequests[ii].notify;
    let mut table = Vec::new();
    std::mem::swap(&mut table, &mut ports[pi].ip_dnrequests);
    let hdr = DnRequest { name: table[0].name, notify: next };
    table.set(0, hdr);
    table.set(ii, DnRequest { name, notify: soright });
    ports[pi].ip_dnrequests = table;
    assert(final(ports)[p as int]@ =~= dn_registered(old(ports)[p as int]@, name, soright));
    assert(pv(*final(ports)) =~= pv(*old(ports)).update(p as int, dn_registered(old(ports)[p as int]@, name, soright)));
    (KERN_SUCCESS, index)
}

/// `ipc_port_dngrow`: grow the port's dead-name table to the next size of
/// the size table; `KERN_RESOURCE_SHORTAGE` when the size table has none
/// (its terminating 0).
pub fn ipc_port_dngrow(ports: &mut Vec<ipc_port>, p: u32, sizes: &Vec<u32>) -> (kr: kern_return_t)
    requires
        p < old(ports).len(),
        old(ports)[p as int].ip_active,
        dn_table_ok(old(ports)[p as int].ip_dnrequests@, sizes@),
        grow_index(old(ports)[p as int].ip_dnrequests@) < sizes.len(),
        sizes[grow_index(old(ports)[p as int].ip_dnrequests@)] != 0 ==>
            sizes[grow_index(old(ports)[p as int].ip_dnrequests@)] > table_size(old(ports)[p as int].ip_dnrequests@),
    ensures
        final(ports).len() == old(ports).len(),
        ({
            let t = old(ports)[p as int].ip_dnrequests@;
            let gi = grow_index(t);
            &&& sizes[gi] == 0 ==> kr == KERN_RESOURCE_SHORTAGE && pv(*final(ports)) == pv(*old(ports))
            &&& sizes[gi] != 0 ==> kr == KERN_SUCCESS && pv(*final(ports)) == pv(*old(ports)).update(
                p as int,
                PortModel { dnrequests: grown_table(t, gi, sizes[gi] as nat), ..old(ports)[p as int]@ },
            )
        }),
{
    let pi = p as usize;
    let olen = ports[pi].ip_dnrequests.len();
    let gi: usize = if olen == 0 { 0 } else { ports[pi].ip_dnrequests[0].name as usize + 1 };
    let nsize = sizes[gi];
    if nsize == 0 {
        return KERN_RESOURCE_SHORTAGE;
    }
    let ghost t = old(ports)[p as int].ip_dnrequests@;
    let ghost ns = nsize as nat;
    let mut otable = Vec::new();
    std::mem::swap(&mut otable, &mut ports[pi].ip_dnrequests);
    let osize: u32 = if olen == 0 { 1 } else { olen as u32 };
    let mut free: u32 = if olen == 0 { 0 } else { otable[0].notify };
    let mut ntable: Vec<DnRequest> = Vec::new();
    ntable.push(DnRequest { name: gi as u32, notify: 0 });
    let mut i: u32 = 1;
    while i < osize
        invariant
            otable@ == t,
            osize == table_size(t),
            1 <= i <= osize,
            ntable.len() == i,
            ntable[0] == (DnRequest { name: gi as u32, notify: 0 }),
            forall|j: int| 1 <= j < i ==> ntable[j] == t[j],
        decreases osize - i,
    {
        ntable.push(otable[i as usize]);
        i = i + 1;
    }
    while i < nsize
        invariant
            osize == table_size(t),
            osize <= i <= nsize,
            nsize == ns,
            ntable.len() == i,
            ntable[0] == (DnRequest { name: gi as u32, notify: 0 }),
            forall|j: int| 1 <= j < osize ==> ntable[j] == t[j],
            forall|j: int| osize <= j < i ==> ntable[j] == grown_table(t, gi as int, ns)[j],
            i > osize ==> free == i - 1,
            i == osize ==> free == (if t.len() == 0 { 0u32 } else { t[0].notify }),
        decreases nsize - i,
    {
        ntable.push(DnRequest { name: MACH_PORT_NAME_NULL, notify: free });
        free = i;
        i = i + 1;
    }
    ntable.set(0, DnRequest { name: gi as u32, notify: free });
    ports[pi].ip_dnrequests = ntable;
    assert(ports[p as int].ip_dnrequests@ =~= grown_table(t, gi as int, ns));
    assert(pv(*final(ports)) =~= pv(*old(ports)).update(
        p as int,
        PortModel { dnrequests: grown_table(t, gi as int, ns), ..old(ports)[p as int]@ },
    ));
    KERN_SUCCESS
}

/// A grown table is well formed, has a free slot and keeps every slot of
/// the table it grew from.
pub proof fn lemma_grown_ok(t: Seq<DnRequest>, sizes: Seq<u32>)
    requires
        dn_table_ok(t, sizes),
        grow_index(t) < sizes.len(),
        sizes.len() < 0x1_0000_0000,
        sizes[grow_index(t)] > table_size(t),
    ensures
        ({
            let n = grown_table(t, grow_index(t), sizes[grow_index(t)] as nat);
            &&& dn_table_ok(n, sizes)
            &&& dn_has_room(n)
            &&& n.len() > t.len()
            &&& forall|j: int| 0 < j < t.len() ==> #[trigger] n[j] == t[j]
        }),
{
    let gi = grow_index(t);
    let n = grown_table(t, gi, sizes[gi] as nat);
    assert(n[0].name == gi as u32);
    let last = n.len() - 1;
    assert(last >= table_size(t));
    assert(n[last].name == MACH_PORT_NAME_NULL);
}

// ─── Receive rights in transit ───────────────────────────────────

/// The port's receive right is in transit: it travels in a message queued
/// on the port's destination.
pub open spec fn in_transit(q: PortModel) -> bool {
    q.active && q.receiver_name == MACH_PORT_NAME_NULL && q.destination != 0
}

/// The end of the chain of destinations from `p` (the first port not in
/// transit), if it is reached within `fuel` steps.
pub open spec fn chain_base(ports: Seq<PortModel>, p: u32, fuel: nat) -> Option<u32>
    decreases fuel,
{
    if !in_transit(ports[p as int]) {
        Some(p)
    } else if fuel == 0 {
        None
    } else {
        chain_base(ports, ports[p as int].destination, (fuel - 1) as nat)
    }
}

/// Every destination on the chain from `p` names a port.
pub open spec fn chain_in_range(ports: Seq<PortModel>, p: u32, fuel: nat) -> bool
    decreases fuel,
{
    &&& 0 < p < ports.len()
    &&& in_transit(ports[p as int]) && fuel > 0 ==> chain_in_range(ports, ports[p as int].destination, (fuel - 1) as nat)
}

/// `ipc_port_check_circularity`: would queueing a message carrying the
/// receive right of `port` on `dest` make a cycle of ports in transit
/// (true)?  If not, `port` gets `dest` as its destination, holding a
/// reference to it.
pub open spec fn circular(ports: Seq<PortModel>, port: u32, dest: u32) -> bool {
    port == dest || chain_base(ports, dest, ports.len()) == Some(port)
}

/// The ports after a receive right is queued on `dest` without a cycle.
pub open spec fn linked(ports: Seq<PortModel>, port: u32, dest: u32) -> Seq<PortModel> {
    let qd = ports[dest as int];
    let p1 = ports.update(dest as int, PortModel { references: (qd.references + 1) as u32, ..qd });
    p1.update(port as int, PortModel { destination: dest, ..p1[port as int] })
}

/// `ipc_port_check_circularity`.
pub fn ipc_port_check_circularity(ports: &mut Vec<ipc_port>, port: u32, dest: u32) -> (r: bool)
    requires
        0 < port < old(ports).len(),
        chain_in_range(pv(*old(ports)), dest, old(ports).len() as nat),
        chain_base(pv(*old(ports)), dest, old(ports).len() as nat) is Some,
        old(ports)[dest as int].ip_references < u32::MAX,
    ensures
        final(ports).len() == old(ports).len(),
        r == circular(pv(*old(ports)), port, dest),
        r ==> pv(*final(ports)) == pv(*old(ports)),
        !r ==> pv(*final(ports)) == linked(pv(*old(ports)), port, dest),
{
    let ghost pm = pv(*ports);
    if port == dest {
        return true;
    }
    let mut base = dest;
    let mut fuel: usize = ports.len();
    while ports[base as usize].ip_active && ports[base as usize].ip_receiver_name == MACH_PORT_NAME_NULL
        && ports[base as usize].ip_destination != 0
        invariant
            pv(*ports) == pm,
            ports.len() == pm.len(),
            chain_in_range(pm, base, fuel as nat),
            chain_base(pm, base, fuel as nat) == chain_base(pm, dest, pm.len()),
            chain_base(pm, base, fuel as nat) is Some,
        decreases fuel,
    {
        assert(in_transit(pm[base as int]));
        base = ports[base as usize].ip_destination;
        fuel = fuel - 1;
    }
    assert(!in_transit(pm[base as int]));
    if port == base {
        return true;
    }
    let md = get_port(ports, dest);
    set_port(ports, dest, PortScalars { references: md.references + 1, ..md });
    let mp = get_port(ports, port);
    set_port(ports, port, PortScalars { destination: dest, ..mp });
    proof {
        assert(pv(*ports) =~= linked(pm, port, dest));
    }
    false
}

/// Queueing the receive right leaves every chain that did not end at
/// `port` as it was.
proof fn lemma_chain_kept(ports: Seq<PortModel>, port: u32, dest: u32, x: u32, f: nat)
    requires
        0 < port < ports.len(),
        0 < dest < ports.len(),
        !in_transit(ports[port as int]),
        chain_in_range(ports, x, f),
        chain_base(ports, x, f) is Some,
        chain_base(ports, x, f) != Some(port),
    ensures
        chain_base(linked(ports, port, dest), x, f) == chain_base(ports, x, f),
        chain_in_range(linked(ports, port, dest), x, f),
    decreases f,
{
    let l = linked(ports, port, dest);
    assert(x != port);
    if x == dest {
        assert(l[x as int].active == ports[x as int].active);
        assert(l[x as int].receiver_name == ports[x as int].receiver_name);
        assert(l[x as int].destination == ports[x as int].destination);
    } else {
        assert(l[x as int] == ports[x as int]);
    }
    if in_transit(ports[x as int]) && f > 0 {
        lemma_chain_kept(ports, port, dest, ports[x as int].destination, (f - 1) as nat);
    }
}

/// A receive right that `ipc_port_check_circularity` lets travel to `dest`
/// creates no cycle of ports in transit: the chain of destinations from
/// `port` still ends, at the port the chain from `dest` ended at.
pub proof fn law_no_cycle_after_check(ports: Seq<PortModel>, port: u32, dest: u32)
    requires
        0 < port < ports.len(),
        !in_transit(ports[port as int]),
        chain_in_range(ports, dest, ports.len()),
        chain_base(ports, dest, ports.len()) is Some,
        !circular(ports, port, dest),
    ensures
        chain_base(linked(ports, port, dest), port, ports.len() + 1) is Some,
        in_transit(linked(ports, port, dest)[port as int]) ==>
            chain_base(linked(ports, port, dest), port, ports.len() + 1) == chain_base(ports, dest, ports.len()),
{
    lemma_chain_kept(ports, port, dest, dest, ports.len());
    let l = linked(ports, port, dest);
    assert(l[port as int].destination == dest);
}

// ─── Port death ──────────────────────────────────────────────────

/// `ipc_port_timestamp`: the next value of the port death counter (the
/// counter moves on, wrapping around).
pub fn ipc_port_timestamp(counter: &mut u32) -> (t: u32)
    ensures
        t == *old(counter),
        *final(counter) == old(counter).wrapping_add(1),
{
    let t = *counter;
    *counter = t.wrapping_add(1);
    t
}

/// The dead-name notifications of slots 1 up to `i` of a table, in order.
pub open spec fn dead_name_notes(t: Seq<DnRequest>, i: nat) -> Seq<IpcAction>
    decreases i,
{
    if i <= 1 {
        seq![]
    } else {
        let prev = dead_name_notes(t, (i - 1) as nat);
        let e = t[i - 1];
        if e.name != MACH_PORT_NAME_NULL { prev.push(IpcAction::NotifyDeadName { notify: e.notify, name: e.name }) } else { prev }
    }
}

/// The threads of `q` (the first `i` of them) woken with success.
pub open spec fn wake_all(threads: Seq<thread>, q: Seq<u32>, i: nat) -> Seq<thread>
    decreases i,
{
    if i == 0 {
        threads
    } else {
        let t = wake_all(threads, q, (i - 1) as nat);
        t.update(q[i - 1] as int, thread { ith_state: MACH_MSG_SUCCESS, ..t[q[i - 1] as int] })
    }
}

/// The port killed: its blocked senders woken, dead, stamped with the
/// death counter, its no-senders request turned into a send-once
/// notification, its queued messages destroyed (each with its reference),
/// its dead-name requests turned into notifications, its kernel object
/// gone, and the caller's reference released.
pub open spec fn port_killed(m: MState, p: u32, counter: u32) -> MState {
    let q = m.ports[p as int];
    let n = q.messages.len();
    let acts1 = m.acts + Seq::new(q.blocked.len(), |k: int| IpcAction::WakeThread { thread: q.blocked[k] });
    let acts2 = if q.nsrequest != 0 { acts1.push(IpcAction::NotifySendOnce { port: q.nsrequest }) } else { acts1 };
    let acts3 = acts2 + Seq::new(n, |k: int| IpcAction::DestroyKmsg { msg: mach_msg_header_t { msgh_remote_port: 0, ..q.messages[k] } });
    let acts4 = acts3 + dead_name_notes(q.dnrequests, q.dnrequests.len());
    let acts5 = if q.kotype != 0 { acts4.push(IpcAction::KobjectDestroy { port: p }) } else { acts4 };
    let refs = (q.references - n) as u32;
    MState {
        ports: m.ports.update(p as int, PortModel {
            active: false,
            timestamp: counter,
            blocked: seq![],
            messages: seq![],
            dnrequests: seq![],
            references: (refs - 1) as u32,
            ..q
        }),
        threads: wake_all(m.threads, q.blocked, q.blocked.len()),
        acts: acts5 + release_actions(p, refs),
        ..m
    }
}

/// `ipc_port_destroy`: destroy a live port whose receive right is gone
/// (the caller's reference is consumed).  A port with a port-destroyed
/// request is not destroyed but handed, in limbo, to the backup port in a
/// port-destroyed notification, unless that would close a loop of ports in
/// transit; then the request's send-once right is dropped and the port
/// dies.  Returns the state and the death counter afterwards.
pub open spec fn port_destroy_spec(m: MState, p: u32, counter: u32) -> (MState, u32) {
    let q = m.ports[p as int];
    let pd = q.pdrequest;
    if pd != 0 {
        let q1 = PortModel { pdrequest: 0, receiver_name: MACH_PORT_NAME_NULL, destination: 0, protected_payload: false, ..q };
        let ports1 = m.ports.update(p as int, q1);
        if !circular(ports1, p, pd) {
            (MState { ports: linked(ports1, p, pd), acts: m.acts.push(IpcAction::NotifyPortDestroyed { notify: pd, port: p }), ..m }, counter)
        } else {
            let qd = ports1[pd as int];
            let m1 = MState {
                ports: ports1.update(pd as int, PortModel {
                    sorights: (qd.sorights - 1) as u32,
                    references: (qd.references - 1) as u32,
                    ..qd
                }),
                acts: m.acts + release_actions(pd, qd.references),
                ..m
            };
            (port_killed(m1, p, counter), counter.wrapping_add(1))
        }
    } else {
        (port_killed(m, p, counter), counter.wrapping_add(1))
    }
}

/// What killing a port needs: a live port, a reference for each queued
/// message besides the caller's, and blocked senders that are threads.
pub open spec fn kill_ok(m: MState, p: u32) -> bool {
    let q = m.ports[p as int];
    &&& 0 < p < m.ports.len()
    &&& q.active
    &&& q.references > q.messages.len()
    &&& forall|k: int| 0 <= k < q.blocked.len() ==> #[trigger] q.blocked[k] < m.threads.len()
}

/// What `ipc_port_destroy` needs: a live port that left every space and
/// port set, with no receiver waiting; for a port-destroyed request, a
/// backup port holding the request's send-once right, with room for the
/// reference the notification takes, and a finite chain of destinations.
pub open spec fn port_destroy_ok(m: MState, p: u32) -> bool {
    let q = m.ports[p as int];
    let pd = q.pdrequest;
    let q1 = PortModel { pdrequest: 0, receiver_name: MACH_PORT_NAME_NULL, destination: 0, protected_payload: false, ..q };
    let ports1 = m.ports.update(p as int, q1);
    &&& kill_ok(m, p)
    &&& q.pset == 0
    &&& q.mscount == 0
    &&& q.seqno == 0
    &&& q.receivers.len() == 0
    &&& pd != 0 ==> {
        &&& 0 < pd < m.ports.len()
        &&& ports1[pd as int].sorights > 0
        &&& ports1[pd as int].references > 0
        &&& ports1[pd as int].references < u32::MAX
        &&& chain_in_range(ports1, pd, m.ports.len() as nat)
        &&& chain_base(ports1, pd, m.ports.len() as nat) is Some
        &&& pd == p ==> q.references > q.messages.len() + 1
    }
}

fn kill_exec(ports: &mut Vec<ipc_port>, psets: &Vec<ipc_pset>, threads: &mut Vec<thread>, acts: &mut Vec<IpcAction>, p: u32, counter: &mut u32)
    requires
        kill_ok(mst(*old(ports), *psets, *old(threads), *old(acts)), p),
    ensures
        mst(*final(ports), *psets, *final(threads), *final(acts)) == port_killed(mst(*old(ports), *psets, *old(threads), *old(acts)), p, *old(counter)),
        *final(counter) == old(counter).wrapping_add(1),
{
    let ghost m0 = mst(*ports, *psets, *threads, *acts);
    let ghost q = m0.ports[p as int];
    let pi = p as usize;
    let mut blocked: Vec<u32> = Vec::new();
    std::mem::swap(&mut blocked, &mut ports[pi].ip_blocked);
    assert(ports[p as int]@ == PortModel { blocked: seq![], ..q });
    let mut k: usize = 0;
    while k < blocked.len()
        invariant
            blocked@ == q.blocked,
            k <= blocked.len(),
            threads.len() == m0.threads.len(),
            forall|j: int| 0 <= j < q.blocked.len() ==> #[trigger] q.blocked[j] < m0.threads.len(),
            threads@ == wake_all(m0.threads, q.blocked, k as nat),
            acts@ == m0.acts + Seq::new(k as nat, |j: int| IpcAction::WakeThread { thread: q.blocked[j] }),
        decreases blocked.len() - k,
    {
        let snd = blocked[k];
        let t = threads[snd as usize];
        threads.set(snd as usize, thread { ith_state: MACH_MSG_SUCCESS, ..t });
        acts.push(IpcAction::WakeThread { thread: snd });
        k = k + 1;
        assert(acts@ =~= m0.acts + Seq::new(k as nat, |j: int| IpcAction::WakeThread { thread: q.blocked[j] }));
    }
    let ghost th1 = threads@;
    ports[pi].ip_active = false;
    let stamp = ipc_port_timestamp(counter);
    ports[pi].ip_timestamp = stamp;
    let ns = ports[pi].ip_nsrequest;
    if ns != 0 {
        acts.push(IpcAction::NotifySendOnce { port: ns });
    }
    let ghost acts2 = acts@;
    let mut msgs: Vec<mach_msg_header_t> = Vec::new();
    std::mem::swap(&mut msgs, &mut ports[pi].ip_messages.imq_messages);
    assert(ports[p as int]@ == PortModel { blocked: seq![], active: false, timestamp: stamp, messages: seq![], ..q });
    let mut k: usize = 0;
    while k < msgs.len()
        invariant
            msgs@ == q.messages,
            k <= msgs.len(),
            ports.len() == m0.ports.len(),
            pi == p as usize,
            (p as int) < ports.len(),
            q.references > q.messages.len(),
            ports[p as int]@ == (PortModel {
                blocked: seq![], active: false, timestamp: stamp, messages: seq![], references: (q.references - k) as u32, ..q
            }),
            forall|j: int| 0 <= j < ports.len() && j != p ==> #[trigger] ports[j]@ == m0.ports[j],
            acts@ == acts2 + Seq::new(k as nat, |j: int| IpcAction::DestroyKmsg { msg: mach_msg_header_t { msgh_remote_port: 0, ..q.messages[j] } }),
        decreases msgs.len() - k,
    {
        let mm = msgs[k];
        ports[pi].ip_references = ports[pi].ip_references - 1;
        acts.push(IpcAction::DestroyKmsg { msg: mach_msg_header_t { msgh_remote_port: 0, ..mm } });
        k = k + 1;
        assert(acts@ =~= acts2 + Seq::new(k as nat, |j: int| IpcAction::DestroyKmsg { msg: mach_msg_header_t { msgh_remote_port: 0, ..q.messages[j] } }));
    }
    let ghost acts3 = acts@;
    let mut table: Vec<DnRequest> = Vec::new();
    std::mem::swap(&mut table, &mut ports[pi].ip_dnrequests);
    let mut i: usize = 1;
    while i < table.len()
        invariant
            table@ == q.dnrequests,
            1 <= i,
            i <= table.len() || (table.len() == 0 && i == 1),
            acts@ == acts3 + dead_name_notes(q.dnrequests, i as nat),
        decreases table.len() - i,
    {
        let e = table[i];
        if e.name != MACH_PORT_NAME_NULL {
            acts.push(IpcAction::NotifyDeadName { notify: e.notify, name: e.name });
        }
        i = i + 1;
        assert(acts@ =~= acts3 + dead_name_notes(q.dnrequests, i as nat));
    }
    assert(dead_name_notes(q.dnrequests, i as nat) == dead_name_notes(q.dnrequests, q.dnrequests.len()));
    if ports[pi].ip_kotype != 0 {
        acts.push(IpcAction::KobjectDestroy { port: p });
    }
    let ghost n = q.messages.len();
    assert(ports[p as int]@ == PortModel {
        blocked: seq![], active: false, timestamp: stamp, messages: seq![], dnrequests: seq![], references: (q.references - n) as u32, ..q
    });
    let ghost before = pv(*ports);
    assert(before =~= m0.ports.update(p as int, PortModel {
        blocked: seq![], active: false, timestamp: stamp, messages: seq![], dnrequests: seq![], references: (q.references - n) as u32, ..q
    }));
    crate::ipc_right::ipc_port_release(ports, p, acts);
    proof {
        let r = port_killed(m0, p, *old(counter));
        assert(pv(*ports) =~= r.ports);
        assert(acts@ =~= r.acts);
        assert(threads@ == r.threads);
    }
}

/// `ipc_port_destroy`.
pub fn ipc_port_destroy(ports: &mut Vec<ipc_port>, psets: &Vec<ipc_pset>, threads: &mut Vec<thread>, acts: &mut Vec<IpcAction>, p: u32, counter: &mut u32)
    requires
        port_destroy_ok(mst(*old(ports), *psets, *old(threads), *old(acts)), p),
    ensures
        (mst(*final(ports), *psets, *final(threads), *final(acts)), *final(counter))
            == port_destroy_spec(mst(*old(ports), *psets, *old(threads), *old(acts)), p, *old(counter)),
{
    let ghost m0 = mst(*ports, *psets, *threads, *acts);
    let pd = ports[p as usize].ip_pdrequest;
    if pd != 0 {
        let m = get_port(ports, p);
        set_port(ports, p, PortScalars { pdrequest: 0, receiver_name: MACH_PORT_NAME_NULL, destination: 0, protected_payload: false, ..m });
        let ghost ports1 = pv(*ports);
        proof {
            let q = m0.ports[p as int];
            assert(ports1 =~= m0.ports.update(p as int, PortModel {
                pdrequest: 0, receiver_name: MACH_PORT_NAME_NULL, destination: 0, protected_payload: false, ..q
            }));
        }
        let circ = ipc_port_check_circularity(ports, p, pd);
        if !circ {
            acts.push(IpcAction::NotifyPortDestroyed { notify: pd, port: p });
            proof {
                assert(mst(*ports, *psets, *threads, *acts) =~= port_destroy_spec(m0, p, *old(counter)).0);
            }
            return;
        }
        assert(pv(*ports) == ports1);
        assert(ports[pd as int]@ == ports1[pd as int]);
        let md = get_port(ports, pd);
        set_port(ports, pd, PortScalars { sorights: md.sorights - 1, ..md });
        assert(ports[pd as int]@ == pv(*ports)[pd as int]);
        let ghost ports2 = pv(*ports);
        crate::ipc_right::ipc_port_release(ports, pd, acts);
        proof {
            assert(pv(*ports)[p as int].references >= ports1[p as int].references - 1);
            if pd != p {
                assert(pv(*ports)[p as int] == ports1[p as int]);
            }
            let qd = ports1[pd as int];
            assert(pv(*ports) =~= ports1.update(pd as int, PortModel {
                sorights: (qd.sorights - 1) as u32,
                references: (qd.references - 1) as u32,
                ..qd
            }));
        }
    }
    kill_exec(ports, psets, threads, acts, p, counter);
}

// ─── Requests and queue settings ─────────────────────────────────

/// `ipc_port_pdrequest`: make `notify` the port's port-destroyed request,
/// returning the previous one.
pub fn ipc_port_pdrequest(ports: &mut Vec<ipc_port>, p: u32, notify: u32) -> (previous: u32)
    requires
        p < old(ports).len(),
        old(ports)[p as int].ip_active,
    ensures
        previous == old(ports)[p as int]@.pdrequest,
        pv(*final(ports)) == pv(*old(ports)).update(p as int, PortModel { pdrequest: notify, ..old(ports)[p as int]@ }),
{
    let m = get_port(ports, p);
    set_port(ports, p, PortScalars { pdrequest: notify, ..m });
    m.pdrequest
}

/// `ipc_port_nsrequest`: the port's no-senders request, returned with the
/// work handed on.  With no send right left and `sync` not past the
/// make-send count, a notification goes to `notify` at once and no
/// request stays; otherwise `notify` becomes the request.
pub open spec fn nsrequest_spec(q: PortModel, sync: u32, notify: u32) -> (PortModel, Seq<IpcAction>) {
    if q.srights == 0 && sync <= q.mscount && notify != 0 {
        (PortModel { nsrequest: 0, ..q }, seq![IpcAction::NotifyNoSenders { notify, mscount: q.mscount }])
    } else {
        (PortModel { nsrequest: notify, ..q }, seq![])
    }
}

/// `ipc_port_nsrequest`: set the port's no-senders request, returning the
/// previous one.
pub fn ipc_port_nsrequest(ports: &mut Vec<ipc_port>, acts: &mut Vec<IpcAction>, p: u32, sync: u32, notify: u32) -> (previous: u32)
    requires
        p < old(ports).len(),
        old(ports)[p as int].ip_active,
    ensures
        previous == old(ports)[p as int]@.nsrequest,
        ({
            let (q, a) = nsrequest_spec(old(ports)[p as int]@, sync, notify);
            &&& pv(*final(ports)) == pv(*old(ports)).update(p as int, q)
            &&& final(acts)@ == old(acts)@ + a
        }),
{
    let m = get_port(ports, p);
    if m.srights == 0 && sync <= m.mscount && notify != 0 {
        set_port(ports, p, PortScalars { nsrequest: 0, ..m });
        acts.push(IpcAction::NotifyNoSenders { notify, mscount: m.mscount });
    } else {
        set_port(ports, p, PortScalars { nsrequest: notify, ..m });
    }
    assert(acts@ =~= old(acts)@ + nsrequest_spec(old(ports)[p as int]@, sync, notify).1);
    m.nsrequest
}

/// How many blocked senders a new queue limit lets go: as many as the
/// limit grew by, at most all of them.
pub open spec fn qlimit_wakeups(q: PortModel, qlimit: u32) -> int {
    if qlimit > q.qlimit {
        let n = qlimit - q.qlimit;
        if n < q.blocked.len() { n } else { q.blocked.len() as int }
    } else {
        0
    }
}

/// `ipc_port_set_qlimit`: the new limit, and the blocked senders it makes
/// room for woken with success, first come first served.
pub open spec fn set_qlimit_spec(m: MState, p: u32, qlimit: u32) -> MState {
    let q = m.ports[p as int];
    let n = qlimit_wakeups(q, qlimit);
    MState {
        ports: m.ports.update(p as int, PortModel { qlimit, blocked: q.blocked.skip(n), ..q }),
        threads: wake_each(m.threads, q.blocked.take(n), MACH_MSG_SUCCESS),
        acts: m.acts + wakeups(q.blocked.take(n)),
        ..m
    }
}

/// `ipc_port_set_qlimit`.
pub fn ipc_port_set_qlimit(
    ports: &mut Vec<ipc_port>,
    psets: &Vec<ipc_pset>,
    threads: &mut Vec<thread>,
    acts: &mut Vec<IpcAction>,
    p: u32,
    qlimit: u32,
)
    requires
        p < old(ports).len(),
        old(ports)[p as int].ip_active,
        threads_ok(old(ports)[p as int].ip_blocked@, old(threads)@),
    ensures
        mst(*final(ports), *psets, *final(threads), *final(acts))
            == set_qlimit_spec(mst(*old(ports), *psets, *old(threads), *old(acts)), p, qlimit),
{
    let ghost m0 = mst(*ports, *psets, *threads, *acts);
    let pi = p as usize;
    let ghost b0 = ports[p as int].ip_blocked@;
    let ghost n = qlimit_wakeups(m0.ports[p as int], qlimit);
    if qlimit > ports[pi].ip_qlimit {
        let wakeup = qlimit - ports[pi].ip_qlimit;
        let mut blocked: Vec<u32> = Vec::new();
        std::mem::swap(&mut blocked, &mut ports[pi].ip_blocked);
        let mut i: u32 = 0;
        while i < wakeup
            invariant
                i <= wakeup,
                wakeup == qlimit - m0.ports[p as int].qlimit,
                b0 == m0.ports[p as int].blocked,
                n == qlimit_wakeups(m0.ports[p as int], qlimit),
                i <= b0.len(),
                blocked@ == b0.skip(i as int),
                threads_ok(blocked@, threads@),
                wake_each(threads@, blocked@.take(n - i), MACH_MSG_SUCCESS) == wake_each(m0.threads, b0.take(n), MACH_MSG_SUCCESS),
                acts@ == m0.acts + wakeups(b0.take(i as int)),
                i <= n,
            ensures
                i == n,
            decreases wakeup - i,
        {
            if blocked.len() == 0 {
                assert(b0.skip(i as int).len() == b0.len() - i);
                break;
            }
            let ghost bb = blocked@;
            let th = blocked.remove(0);
            let t = threads[th as usize];
            threads.set(th as usize, thread { ith_state: MACH_MSG_SUCCESS, ..t });
            acts.push(IpcAction::WakeThread { thread: th });
            proof {
                assert(blocked@ =~= bb.drop_first());
                assert(blocked@ =~= b0.skip(i + 1));
                assert(bb[0] == b0[i as int]);
                assert(bb.take(n - i).drop_first() =~= blocked@.take(n - i - 1));
                assert(bb.take(n - i)[0] == th);
                assert(wakeups(b0.take(i + 1)) =~= wakeups(b0.take(i as int)).push(IpcAction::WakeThread { thread: th }));
                assert forall|k: int| 0 <= k < blocked@.len() implies #[trigger] blocked@[k] < threads.len() by {
                    assert(blocked@[k] == bb[k + 1]);
                }
            }
            i = i + 1;
        }
        proof {
            assert(blocked@.take(0) =~= Seq::<u32>::empty());
        }
        std::mem::swap(&mut blocked, &mut ports[pi].ip_blocked);
    } else {
        proof {
            assert(b0.skip(0) =~= b0);
            assert(b0.take(0) =~= Seq::<u32>::empty());
            assert(wakeups(Seq::<u32>::empty()) =~= Seq::<IpcAction>::empty());
            assert(acts@ =~= m0.acts + wakeups(b0.take(0)));
        }
    }
    ports[pi].ip_qlimit = qlimit;
    proof {
        assert(pv(*ports) =~= set_qlimit_spec(m0, p, qlimit).ports);
    }
}

/// `ipc_port_lock_mqueue`: the queue the port's messages wait on: its
/// set's while it belongs to a live set; a port whose set died leaves it
/// first.
pub open spec fn lock_mqueue_spec(m: MState, p: u32) -> (MqueueId, MState) {
    let s = m.ports[p as int].pset;
    if s != 0 && m.psets[s as int].active {
        (MqueueId::Pset { pset: s }, m)
    } else if s != 0 {
        (MqueueId::Port { port: p }, pset_remove_spec(m, s, p))
    } else {
        (MqueueId::Port { port: p }, m)
    }
}

/// What the port operations that find its queue rely on: the port is
/// alive and its queue, and its set's, are consistent.
pub open spec fn port_mqueue_ok(m: MState, p: u32) -> bool {
    &&& port_queue_ok(m, p)
    &&& m.ports[p as int].active
    &&& m.ports[p as int].pset != 0 ==> pset_queue_ok(m, m.ports[p as int].pset)
}

/// `ipc_port_lock_mqueue`.
pub fn ipc_port_lock_mqueue(
    ports: &mut Vec<ipc_port>,
    psets: &mut Vec<ipc_pset>,
    threads: &mut Vec<thread>,
    acts: &mut Vec<IpcAction>,
    p: u32,
) -> (r: MqueueId)
    requires
        port_mqueue_ok(mst(*old(ports), *old(psets), *old(threads), *old(acts)), p),
    ensures
        (r, mst(*final(ports), *final(psets), *final(threads), *final(acts)))
            == lock_mqueue_spec(mst(*old(ports), *old(psets), *old(threads), *old(acts)), p),
{
    let s = ports[p as usize].ip_pset;
    if s != 0 {
        if psets[s as usize].ips_active {
            return MqueueId::Pset { pset: s };
        }
        ipc_pset_remove(ports, psets, threads, acts, s, p);
    }
    MqueueId::Port { port: p }
}

pub proof fn lemma_lock_len(m: MState, p: u32)
    requires
        p < m.ports.len(),
        m.ports[p as int].pset < m.psets.len(),
    ensures
        lock_mqueue_spec(m, p).1.ports.len() == m.ports.len(),
        lock_mqueue_spec(m, p).1.psets.len() == m.psets.len(),
{
}

/// The port state once `f` changed it, after finding its queue.
pub open spec fn after_lock(m: MState, p: u32, q: PortModel) -> MState {
    MState { ports: m.ports.update(p as int, q), ..m }
}

/// `ipc_port_set_seqno`: the sequence number the next message received
/// from the port gets.
pub open spec fn set_seqno_spec(m: MState, p: u32, seqno: u32) -> MState {
    let m1 = lock_mqueue_spec(m, p).1;
    after_lock(m1, p, PortModel { seqno, ..m1.ports[p as int] })
}

/// `ipc_port_set_seqno`.
pub fn ipc_port_set_seqno(
    ports: &mut Vec<ipc_port>,
    psets: &mut Vec<ipc_pset>,
    threads: &mut Vec<thread>,
    acts: &mut Vec<IpcAction>,
    p: u32,
    seqno: u32,
)
    requires
        port_mqueue_ok(mst(*old(ports), *old(psets), *old(threads), *old(acts)), p),
    ensures
        mst(*final(ports), *final(psets), *final(threads), *final(acts))
            == set_seqno_spec(mst(*old(ports), *old(psets), *old(threads), *old(acts)), p, seqno),
{
    let ghost m0 = mst(*ports, *psets, *threads, *acts);
    ipc_port_lock_mqueue(ports, psets, threads, acts, p);
    proof {
        lemma_lock_len(m0, p);
        assert(pv(*ports).len() == ports.len());
    }
    let ghost m1 = mst(*ports, *psets, *threads, *acts);
    ports[p as usize].ip_seqno = seqno;
    assert(pv(*ports) =~= set_seqno_spec(m0, p, seqno).ports);
}

/// `ipc_port_set_protected_payload`: messages to the port carry `payload`
/// in place of its name.
pub open spec fn set_payload_spec(m: MState, p: u32, payload: u32) -> MState {
    let m1 = lock_mqueue_spec(m, p).1;
    after_lock(m1, p, PortModel { payload, protected_payload: true, ..m1.ports[p as int] })
}

/// `ipc_port_set_protected_payload`.
pub fn ipc_port_set_protected_payload(
    ports: &mut Vec<ipc_port>,
    psets: &mut Vec<ipc_pset>,
    threads: &mut Vec<thread>,
    acts: &mut Vec<IpcAction>,
    p: u32,
    payload: u32,
)
    requires
        port_mqueue_ok(mst(*old(ports), *old(psets), *old(threads), *old(acts)), p),
    ensures
        mst(*final(ports), *final(psets), *final(threads), *final(acts))
            == set_payload_spec(mst(*old(ports), *old(psets), *old(threads), *old(acts)), p, payload),
{
    let ghost m0 = mst(*ports, *psets, *threads, *acts);
    ipc_port_lock_mqueue(ports, psets, threads, acts, p);
    proof {
        lemma_lock_len(m0, p);
        assert(pv(*ports).len() == ports.len());
    }
    ports[p as usize].ip_payload = payload;
    ports[p as usize].ip_protected_payload = true;
    assert(pv(*ports) =~= set_payload_spec(m0, p, payload).ports);
}

/// `ipc_port_clear_protected_payload`: messages to the port carry its name
/// again.
pub open spec fn clear_payload_spec(m: MState, p: u32) -> MState {
    let m1 = lock_mqueue_spec(m, p).1;
    after_lock(m1, p, PortModel { protected_payload: false, ..m1.ports[p as int] })
}

/// `ipc_port_clear_protected_payload`.
pub fn ipc_port_clear_protected_payload(
    ports: &mut Vec<ipc_port>,
    psets: &mut Vec<ipc_pset>,
    threads: &mut Vec<thread>,
    acts: &mut Vec<IpcAction>,
    p: u32,
)
    requires
        port_mqueue_ok(mst(*old(ports), *old(psets), *old(threads), *old(acts)), p),
    ensures
        mst(*final(ports), *final(psets), *final(threads), *final(acts))
            == clear_payload_spec(mst(*old(ports), *old(psets), *old(threads), *old(acts)), p),
{
    let ghost m0 = mst(*ports, *psets, *threads, *acts);
    ipc_port_lock_mqueue(ports, psets, threads, acts, p);
    proof {
        lemma_lock_len(m0, p);
        assert(pv(*ports).len() == ports.len());
    }
    ports[p as usize].ip_protected_payload = false;
    assert(pv(*ports) =~= clear_payload_spec(m0, p).ports);
}

/// `ipc_port_clear_receiver`: the receive right left its space.  The port
/// leaves its set, or else the threads waiting on its queue wake with
/// `MACH_RCV_PORT_DIED`; its make-send count and sequence number restart
/// from 0.
pub open spec fn clear_receiver_spec(m: MState, p: u32) -> MState {
    let q = m.ports[p as int];
    let m1 = if q.pset != 0 {
        pset_remove_spec(m, q.pset, p)
    } else {
        MState {
            ports: m.ports.update(p as int, PortModel { receivers: Seq::empty(), ..q }),
            threads: wake_each(m.threads, q.receivers, MACH_RCV_PORT_DIED),
            acts: m.acts + wakeups(q.receivers),
            ..m
        }
    };
    after_lock(m1, p, PortModel { mscount: 0, seqno: 0, ..m1.ports[p as int] })
}

/// `ipc_port_clear_receiver`.
pub fn ipc_port_clear_receiver(
    ports: &mut Vec<ipc_port>,
    psets: &mut Vec<ipc_pset>,
    threads: &mut Vec<thread>,
    acts: &mut Vec<IpcAction>,
    p: u32,
)
    requires
        port_mqueue_ok(mst(*old(ports), *old(psets), *old(threads), *old(acts)), p),
    ensures
        mst(*final(ports), *final(psets), *final(threads), *final(acts))
            == clear_receiver_spec(mst(*old(ports), *old(psets), *old(threads), *old(acts)), p),
{
    let ghost m0 = mst(*ports, *psets, *threads, *acts);
    let pi = p as usize;
    let s = ports[pi].ip_pset;
    if s != 0 {
        ipc_pset_remove(ports, psets, threads, acts, s, p);
        assert(pv(*ports).len() == ports.len());
    } else {
        let mut pq = ipc_mqueue { imq_messages: Vec::new(), imq_threads: Vec::new() };
        std::mem::swap(&mut pq, &mut ports[pi].ip_messages);
        ipc_mqueue_changed(&mut pq, threads, acts, MACH_RCV_PORT_DIED);
        assert(pq.imq_threads@ =~= Seq::<u32>::empty());
        std::mem::swap(&mut pq, &mut ports[pi].ip_messages);
        proof {
            let q = m0.ports[p as int];
            assert(pv(*ports) =~= m0.ports.update(p as int, PortModel { receivers: Seq::empty(), ..q }));
        }
    }
    ports[pi].ip_mscount = 0;
    ports[pi].ip_seqno = 0;
    assert(pv(*ports) =~= clear_receiver_spec(m0, p).ports);
}

// ─── Creating ports ──────────────────────────────────────────────

/// `ipc_port_init`: a port just allocated in `space_id` under `name`: no
/// rights or requests counted, no set, empty queues, the default queue
/// limit.
pub open spec fn port_init_spec(q: PortModel, space_id: u32, name: u32) -> PortModel {
    PortModel {
        receiver_name: name,
        receiver: space_id,
        mscount: 0,
        srights: 0,
        sorights: 0,
        nsrequest: 0,
        pdrequest: 0,
        dnrequests: Seq::empty(),
        pset: 0,
        seqno: 0,
        msgcount: 0,
        qlimit: MACH_PORT_QLIMIT_DEFAULT,
        protected_payload: false,
        payload: 0,
        messages: Seq::empty(),
        receivers: Seq::empty(),
        blocked: Seq::empty(),
        ..q
    }
}

/// `ipc_port_init`.
pub fn ipc_port_init(port: &mut ipc_port, space_id: u32, name: mach_port_name_t)
    ensures
        final(port)@ == port_init_spec(old(port)@, space_id, name),
{
    port.ip_receiver_name = name;
    port.ip_messages = ipc_mqueue { imq_messages: Vec::new(), imq_threads: Vec::new() };
    port.ip_receiver = space_id;
    port.ip_mscount = 0;
    port.ip_srights = 0;
    port.ip_sorights = 0;
    port.ip_nsrequest = 0;
    port.ip_pdrequest = 0;
    port.ip_dnrequests = Vec::new();
    port.ip_pset = 0;
    port.ip_seqno = 0;
    port.ip_msgcount = 0;
    port.ip_qlimit = MACH_PORT_QLIMIT_DEFAULT;
    port.ip_protected_payload = false;
    port.ip_payload = 0;
    port.ip_blocked = Vec::new();
    assert(port@ =~= port_init_spec(old(port)@, space_id, name));
}

/// A new port object: zeroed, alive, with the reference its entry holds.
pub open spec fn fresh_port() -> PortModel {
    PortModel {
        active: true,
        references: 1,
        srights: 0,
        sorights: 0,
        mscount: 0,
        receiver_name: 0,
        receiver: 0,
        destination: 0,
        nsrequest: 0,
        pdrequest: 0,
        protected_payload: false,
        payload: 0,
        timestamp: 0,
        dnrequests: Seq::empty(),
        kotype: 0,
        pset: 0,
        msgcount: 0,
        qlimit: 0,
        seqno: 0,
        blocked: Seq::empty(),
        messages: Seq::empty(),
        receivers: Seq::empty(),
    }
}

/// A zeroed port object, alive, with one reference.
fn new_port_object() -> (port: ipc_port)
    ensures
        port@ == fresh_port(),
{
    let port = ipc_port {
        ip_active: true,
        ip_references: 1,
        ip_srights: 0,
        ip_sorights: 0,
        ip_mscount: 0,
        ip_receiver_name: 0,
        ip_receiver: 0,
        ip_destination: 0,
        ip_nsrequest: 0,
        ip_pdrequest: 0,
        ip_protected_payload: false,
        ip_payload: 0,
        ip_timestamp: 0,
        ip_dnrequests: Vec::new(),
        ip_kotype: 0,
        ip_pset: 0,
        ip_msgcount: 0,
        ip_qlimit: 0,
        ip_seqno: 0,
        ip_blocked: Vec::new(),
        ip_messages: ipc_mqueue { imq_messages: Vec::new(), imq_threads: Vec::new() },
    };
    assert(port@ =~= fresh_port());
    port
}

/// Append a new port named `name` in `space_id` to the ports.
fn push_new_port(ports: &mut Vec<ipc_port>, space_id: u32, name: mach_port_name_t)
    ensures
        pv(*final(ports)) == pv(*old(ports)).push(port_init_spec(fresh_port(), space_id, name)),
{
    let mut port = new_port_object();
    ipc_port_init(&mut port, space_id, name);
    ports.push(port);
    assert(pv(*ports) =~= pv(*old(ports)).push(port_init_spec(fresh_port(), space_id, name)));
}

/// `ipc_port_alloc`: create a port whose receive right the space holds
/// under a newly allocated name (the head of its free list, or `fresh`);
/// the port's index is the next one.  Returns the status, the name and the
/// port.
pub fn ipc_port_alloc(space: &mut ipc_space, ports: &mut Vec<ipc_port>, fresh: mach_port_name_t)
    -> (r: (kern_return_t, mach_port_name_t, u32))
    requires
        free_ok(old(space).is_entries@),
        first_free(old(space).is_entries@) is None ==> name_valid(fresh) && !name_used(old(space).is_entries@, fresh),
        old(space).is_entries.len() < usize::MAX,
        old(ports).len() < u32::MAX,
    ensures
        final(space).is_active == old(space).is_active,
        final(space).is_id == old(space).is_id,
        !old(space).is_active ==> r.0 == KERN_INVALID_TASK && *final(space) == *old(space) && pv(*final(ports)) == pv(*old(ports)),
        old(space).is_active ==> {
            let (ents, i) = object_alloc_spec(old(space).is_entries@, fresh, MACH_PORT_TYPE_RECEIVE, 0, old(ports).len() as u32);
            &&& r == (KERN_SUCCESS, ents[i].ie_name, old(ports).len() as u32)
            &&& final(space).is_entries@ == ents
            &&& pv(*final(ports)) == pv(*old(ports)).push(port_init_spec(fresh_port(), old(space).is_id, ents[i].ie_name))
        },
{
    let p = ports.len() as u32;
    proof { lemma_alloc_rights(); }
    let (kr, name) = ipc_object_alloc(space, MACH_PORT_TYPE_RECEIVE, 0, p, fresh);
    if kr != KERN_SUCCESS {
        return (kr, 0, 0);
    }
    push_new_port(ports, space.is_id, name);
    (KERN_SUCCESS, name, p)
}

/// `ipc_port_alloc_name`: create a port whose receive right the space
/// holds under `name`; `KERN_NAME_EXISTS` when the name denotes a right.
/// Returns the status and the port.
pub fn ipc_port_alloc_name(space: &mut ipc_space, ports: &mut Vec<ipc_port>, name: mach_port_name_t)
    -> (r: (kern_return_t, u32))
    requires
        name_valid(name),
        keys_unique(old(space).is_entries@),
        free_ok(old(space).is_entries@),
        old(space).is_entries.len() < usize::MAX,
        old(ports).len() < u32::MAX,
    ensures
        final(space).is_active == old(space).is_active,
        final(space).is_id == old(space).is_id,
        !old(space).is_active ==> r.0 == KERN_INVALID_TASK && *final(space) == *old(space) && pv(*final(ports)) == pv(*old(ports)),
        old(space).is_active ==> {
            let (kr, ents) = object_alloc_name_spec(old(space).is_entries@, name, MACH_PORT_TYPE_RECEIVE, 0, old(ports).len() as u32);
            &&& r.0 == kr
            &&& final(space).is_entries@ == ents
            &&& kr == KERN_SUCCESS ==> r.1 == old(ports).len()
                && pv(*final(ports)) == pv(*old(ports)).push(port_init_spec(fresh_port(), old(space).is_id, name))
            &&& kr != KERN_SUCCESS ==> pv(*final(ports)) == pv(*old(ports))
        },
{
    let p = ports.len() as u32;
    proof { lemma_alloc_rights(); }
    let kr = ipc_object_alloc_name(space, MACH_PORT_TYPE_RECEIVE, 0, p, name);
    if kr != KERN_SUCCESS {
        return (kr, 0);
    }
    push_new_port(ports, space.is_id, name);
    (KERN_SUCCESS, p)
}

} // verus!
