//! The port-management calls a task makes on its own space: creating
//! rights, setting a receive right's queue limit, make-send count,
//! sequence number and payload, reporting its status, managing port-set
//! membership, requesting notifications, and moving single rights in and
//! out of the space.

use vstd::prelude::*;
use crate::ipc_entry::{first_free, free_ok, keys_unique, name_used, name_valid};
use crate::ipc_kmsg::{sst};
use crate::ipc_mqueue::{mst, thread, threads_ok, MState, MqueueId};
use crate::ipc_object::{
    copyout_space_ok, ipc_object_alloc_dead, ipc_object_alloc_dead_name, ipc_object_copyin, ipc_object_copyout_name,
    ipc_object_translate, object_alloc_name_spec, object_alloc_spec, object_copyin_ok, object_copyin_spec,
    object_copyout_name_ok, object_copyout_name_spec, translate_spec, lemma_right_bits, lemma_receive_is_port_right,
};
use crate::ipc_port::{
    fresh_port, ipc_port_alloc, ipc_port_alloc_name, ipc_port_clear_protected_payload, ipc_port_lock_mqueue,
    ipc_port_nsrequest, ipc_port_pdrequest, ipc_port_set_protected_payload, ipc_port_set_qlimit, ipc_port_set_seqno,
    clear_payload_spec, lock_mqueue_spec, nsrequest_spec, port_init_spec, port_mqueue_ok, set_payload_spec,
    set_qlimit_spec, set_seqno_spec, sizes_ok,
};
use crate::ipc_pset::{ipc_pset_alloc, ipc_pset_alloc_name, ipc_pset_move, new_pset, pset_move_ok, pset_move_spec};
use crate::ipc_right::{
    get_entry, ie_bits_type, ie_type, in_use, ipc_entry, ipc_entry_lookup, ipc_port, ipc_pset, ipc_right_dnrequest,
    ipc_right_lookup_write, ipc_space, lookup_spec, names_unique, ports_dn_ok, pv, rstate, space_frame, space_ok,
    st_dnrequest, IpcAction, PortModel, IO_DEAD,
};
use crate::ipc_kmsg::copyin_type_spec;
use crate::ipc_kmsg::ipc_object_copyin_type;
use crate::mach_types::{
    boolean_t, kern_return_t, mach_msg_id_t, mach_msg_type_name_t, mach_port_msgcount_t, mach_port_mscount_t,
    mach_port_name_t, mach_port_rights_t, mach_port_right_t, mach_port_seqno_t, mach_port_status_t, is_port_right, KERN_INVALID_ARGUMENT,
    KERN_INVALID_CAPABILITY, KERN_INVALID_HOST, KERN_INVALID_NAME, KERN_INVALID_RIGHT, KERN_INVALID_TASK,
    KERN_INVALID_VALUE, KERN_SUCCESS, MACH_MSG_TYPE_MOVE_RECEIVE, MACH_MSG_TYPE_MOVE_SEND_ONCE,
    MACH_MSG_TYPE_PORT_ANY, MACH_MSG_TYPE_PORT_ANY_RIGHT, MACH_MSG_TYPE_PROTECTED_PAYLOAD, MACH_NOTIFY_DEAD_NAME, MACH_NOTIFY_NO_SENDERS,
    MACH_NOTIFY_PORT_DESTROYED, MACH_PORT_KTYPE_NONE, MACH_PORT_KTYPE_USER_DEVICE, MACH_PORT_NAME_DEAD,
    MACH_PORT_NAME_NULL, MACH_PORT_QLIMIT_MAX, MACH_PORT_RIGHT_DEAD_NAME, MACH_PORT_RIGHT_PORT_SET,
    MACH_PORT_RIGHT_RECEIVE, MACH_PORT_TYPE_PORT_SET, MACH_PORT_TYPE_RECEIVE, MACH_PORT_TYPE_DEAD_NAME,
    IKOT_NONE, IKOT_USER_DEVICE, MACH_PORT_RIGHT_SEND_ONCE,
};

verus! {

// ─── Creating rights ─────────────────────────────────────────────

/// What creating a right relies on: the space's free entries are clean,
/// a new name is a fresh valid one, and there is room for one more entry,
/// port and set.
pub open spec fn alloc_ok(space: ipc_space, ports: Seq<PortModel>, npsets: nat, fresh: u32) -> bool {
    &&& free_ok(space.is_entries@)
    &&& first_free(space.is_entries@) is None ==> name_valid(fresh) && !name_used(space.is_entries@, fresh)
    &&& space.is_entries.len() < usize::MAX
    &&& ports.len() < u32::MAX
    &&& npsets < u32::MAX
}

/// `mach_port_allocate`: create a receive right (a new port), an empty
/// port set or a dead name under a newly allocated name (the head of the
/// space's free list, or `fresh`).  Returns the status and the name.
pub fn mach_port_allocate(
    space: &mut ipc_space,
    ports: &mut Vec<ipc_port>,
    psets: &mut Vec<ipc_pset>,
    right: mach_port_right_t,
    fresh: mach_port_name_t,
) -> (r: (kern_return_t, mach_port_name_t))
    requires
        alloc_ok(*old(space), pv(*old(ports)), old(psets).len() as nat, fresh),
    ensures
        final(space).is_active == old(space).is_active,
        final(space).is_id == old(space).is_id,
        right != MACH_PORT_RIGHT_RECEIVE && right != MACH_PORT_RIGHT_PORT_SET && right != MACH_PORT_RIGHT_DEAD_NAME
            ==> r.0 == KERN_INVALID_VALUE && *final(space) == *old(space),
        right == MACH_PORT_RIGHT_RECEIVE || right == MACH_PORT_RIGHT_PORT_SET || right == MACH_PORT_RIGHT_DEAD_NAME ==> {
            &&& !old(space).is_active ==> r.0 == KERN_INVALID_TASK && *final(space) == *old(space)
            &&& old(space).is_active ==> {
                let (typ, urefs, object) = if right == MACH_PORT_RIGHT_RECEIVE {
                    (MACH_PORT_TYPE_RECEIVE, 0u32, old(ports).len() as u32)
                } else if right == MACH_PORT_RIGHT_PORT_SET {
                    (MACH_PORT_TYPE_PORT_SET, 0u32, old(psets).len() as u32)
                } else {
                    (MACH_PORT_TYPE_DEAD_NAME, 1u32, 0u32)
                };
                let (ents, i) = object_alloc_spec(old(space).is_entries@, fresh, typ, urefs, object);
                &&& r == (KERN_SUCCESS, ents[i].ie_name)
                &&& final(space).is_entries@ == ents
            }
        },
        right == MACH_PORT_RIGHT_RECEIVE && old(space).is_active ==> pv(*final(ports)) == pv(*old(ports)).push(
            port_init_spec(fresh_port(), old(space).is_id, r.1)),
        !(right == MACH_PORT_RIGHT_RECEIVE && old(space).is_active) ==> pv(*final(ports)) == pv(*old(ports)),
        right == MACH_PORT_RIGHT_PORT_SET && old(space).is_active ==> crate::ipc_mqueue::psv(*final(psets))
            == crate::ipc_mqueue::psv(*old(psets)).push(new_pset(r.1)),
        !(right == MACH_PORT_RIGHT_PORT_SET && old(space).is_active) ==> crate::ipc_mqueue::psv(*final(psets))
            == crate::ipc_mqueue::psv(*old(psets)),
{
    if right == MACH_PORT_RIGHT_RECEIVE {
        let (kr, name, _port) = ipc_port_alloc(space, ports, fresh);
        (kr, name)
    } else if right == MACH_PORT_RIGHT_PORT_SET {
        let (kr, name, _pset) = ipc_pset_alloc(space, psets, fresh);
        (kr, name)
    } else if right == MACH_PORT_RIGHT_DEAD_NAME {
        ipc_object_alloc_dead(space, fresh)
    } else {
        (KERN_INVALID_VALUE, 0)
    }
}

/// `mach_port_allocate_name`: create a receive right, an empty port set
/// or a dead name under `name`.  A null or dead name, or another kind of
/// right, gives `KERN_INVALID_VALUE`; a name already denoting a right
/// gives `KERN_NAME_EXISTS`.
pub fn mach_port_allocate_name(
    space: &mut ipc_space,
    ports: &mut Vec<ipc_port>,
    psets: &mut Vec<ipc_pset>,
    right: mach_port_right_t,
    name: mach_port_name_t,
) -> (kr: kern_return_t)
    requires
        keys_unique(old(space).is_entries@),
        free_ok(old(space).is_entries@),
        old(space).is_entries.len() < usize::MAX,
        old(ports).len() < u32::MAX,
        old(psets).len() < u32::MAX,
    ensures
        final(space).is_active == old(space).is_active,
        final(space).is_id == old(space).is_id,
        !name_valid(name) || (right != MACH_PORT_RIGHT_RECEIVE && right != MACH_PORT_RIGHT_PORT_SET
            && right != MACH_PORT_RIGHT_DEAD_NAME) ==> kr == KERN_INVALID_VALUE && *final(space) == *old(space),
        name_valid(name) && (right == MACH_PORT_RIGHT_RECEIVE || right == MACH_PORT_RIGHT_PORT_SET
            || right == MACH_PORT_RIGHT_DEAD_NAME) ==> {
            &&& !old(space).is_active ==> kr == KERN_INVALID_TASK && *final(space) == *old(space)
            &&& old(space).is_active ==> {
                let (typ, urefs, object) = if right == MACH_PORT_RIGHT_RECEIVE {
                    (MACH_PORT_TYPE_RECEIVE, 0u32, old(ports).len() as u32)
                } else if right == MACH_PORT_RIGHT_PORT_SET {
                    (MACH_PORT_TYPE_PORT_SET, 0u32, old(psets).len() as u32)
                } else {
                    (MACH_PORT_TYPE_DEAD_NAME, 1u32, 0u32)
                };
                (kr, final(space).is_entries@) == object_alloc_name_spec(old(space).is_entries@, name, typ, urefs, object)
            }
        },
        right == MACH_PORT_RIGHT_RECEIVE && kr == KERN_SUCCESS ==> pv(*final(ports)) == pv(*old(ports)).push(
            port_init_spec(fresh_port(), old(space).is_id, name)),
        !(right == MACH_PORT_RIGHT_RECEIVE && kr == KERN_SUCCESS) ==> pv(*final(ports)) == pv(*old(ports)),
        right == MACH_PORT_RIGHT_PORT_SET && kr == KERN_SUCCESS ==> crate::ipc_mqueue::psv(*final(psets))
            == crate::ipc_mqueue::psv(*old(psets)).push(new_pset(name)),
        !(right == MACH_PORT_RIGHT_PORT_SET && kr == KERN_SUCCESS) ==> crate::ipc_mqueue::psv(*final(psets))
            == crate::ipc_mqueue::psv(*old(psets)),
{
    if name == MACH_PORT_NAME_NULL || name == MACH_PORT_NAME_DEAD {
        return KERN_INVALID_VALUE;
    }
    if right == MACH_PORT_RIGHT_RECEIVE {
        let (kr, _port) = ipc_port_alloc_name(space, ports, name);
        kr
    } else if right == MACH_PORT_RIGHT_PORT_SET {
        let (kr, _pset) = ipc_pset_alloc_name(space, psets, name);
        kr
    } else if right == MACH_PORT_RIGHT_DEAD_NAME {
        ipc_object_alloc_dead_name(space, name)
    } else {
        KERN_INVALID_VALUE
    }
}

// ─── A receive right's settings ──────────────────────────────────

/// The port of a right to a port that the space names: a port of the
/// space's vector, alive and knowing its name when the right is the
/// receive right.
pub proof fn lemma_translated_port(space: ipc_space, ports: Seq<PortModel>, name: u32, right: u32)
    requires
        space_ok(space, ports),
        right <= MACH_PORT_RIGHT_SEND_ONCE,
    ensures
        translate_spec(space, name, right) matches Ok(p) ==> {
            &&& 0 < p < ports.len()
            &&& right == MACH_PORT_RIGHT_RECEIVE ==> ports[p as int].active && ports[p as int].receiver == space.is_id
                && ports[p as int].receiver_name == name
        },
{
    lemma_right_bits();
    if lookup_spec(space, name) is Some {
        let i = lookup_spec(space, name)->0;
        assert(in_use(space.is_entries[i]));
        lemma_receive_is_port_right(space.is_entries[i].ie_bits);
    }
}

/// `mach_port_set_mscount`: set the make-send count of the port whose
/// receive right the space names `name`.
pub fn mach_port_set_mscount(space: &ipc_space, ports: &mut Vec<ipc_port>, name: mach_port_name_t, mscount: mach_port_mscount_t)
    -> (kr: kern_return_t)
    requires
        space_ok(*space, pv(*old(ports))),
    ensures
        match translate_spec(*space, name, MACH_PORT_RIGHT_RECEIVE) {
            Err(k) => kr == k && pv(*final(ports)) == pv(*old(ports)),
            Ok(p) => kr == KERN_SUCCESS
                && pv(*final(ports)) == pv(*old(ports)).update(p as int, PortModel { mscount, ..pv(*old(ports))[p as int] }),
        },
{
    proof { lemma_translated_port(*space, pv(*ports), name, MACH_PORT_RIGHT_RECEIVE); }
    match ipc_object_translate(space, name, MACH_PORT_RIGHT_RECEIVE) {
        Err(kr) => kr,
        Ok(p) => {
            ports[p as usize].ip_mscount = mscount;
            assert(pv(*ports) =~= pv(*old(ports)).update(p as int, PortModel { mscount, ..pv(*old(ports))[p as int] }));
            KERN_SUCCESS
        },
    }
}

/// `mach_port_get_srights`: the number of send rights to the port whose
/// receive right the space names `name`.
pub fn mach_port_get_srights(space: &ipc_space, ports: &Vec<ipc_port>, name: mach_port_name_t)
    -> (r: Result<mach_port_rights_t, kern_return_t>)
    requires
        space_ok(*space, pv(*ports)),
    ensures
        match translate_spec(*space, name, MACH_PORT_RIGHT_RECEIVE) {
            Err(k) => r == Err::<mach_port_rights_t, kern_return_t>(k),
            Ok(p) => r == Ok::<mach_port_rights_t, kern_return_t>(pv(*ports)[p as int].srights),
        },
{
    proof { lemma_translated_port(*space, pv(*ports), name, MACH_PORT_RIGHT_RECEIVE); }
    match ipc_object_translate(space, name, MACH_PORT_RIGHT_RECEIVE) {
        Err(kr) => Err(kr),
        Ok(p) => Ok(ports[p as usize].ip_srights),
    }
}

/// The number of used slots (those naming an entry) among slots
/// `1..n` of a dead-name request table.
pub open spec fn dn_used(t: Seq<crate::ipc_right::DnRequest>, n: int) -> nat
    decreases n,
{
    if n <= 1 {
        0
    } else {
        dn_used(t, n - 1) + if t[n - 1].name != MACH_PORT_NAME_NULL { 1nat } else { 0nat }
    }
}

proof fn lemma_dn_used_le(t: Seq<crate::ipc_right::DnRequest>, n: int)
    ensures
        dn_used(t, n) <= if n <= 1 { 0 } else { n - 1 },
    decreases n,
{
    if n > 1 {
        lemma_dn_used_le(t, n - 1);
    }
}

/// `mach_port_dnrequest_info`: the size of the dead-name request table of
/// the port whose receive right the space names `name`, and how many of
/// its slots (past the first, which heads the free list) are in use.
pub fn mach_port_dnrequest_info(space: &ipc_space, ports: &Vec<ipc_port>, name: mach_port_name_t)
    -> (r: Result<(u32, u32), kern_return_t>)
    requires
        space_ok(*space, pv(*ports)),
        translate_spec(*space, name, MACH_PORT_RIGHT_RECEIVE) matches Ok(p)
            ==> p < ports.len() && pv(*ports)[p as int].dnrequests.len() <= u32::MAX,
    ensures
        match translate_spec(*space, name, MACH_PORT_RIGHT_RECEIVE) {
            Err(k) => r == Err::<(u32, u32), kern_return_t>(k),
            Ok(p) => {
                let t = pv(*ports)[p as int].dnrequests;
                r == Ok::<(u32, u32), kern_return_t>((t.len() as u32, dn_used(t, t.len() as int) as u32))
            },
        },
{
    proof { lemma_translated_port(*space, pv(*ports), name, MACH_PORT_RIGHT_RECEIVE); }
    match ipc_object_translate(space, name, MACH_PORT_RIGHT_RECEIVE) {
        Err(kr) => Err(kr),
        Ok(p) => {
            let t = &ports[p as usize].ip_dnrequests;
            let total = t.len() as u32;
            let mut used: u32 = 0;
            let mut index: u32 = 1;
            while index < total
                invariant
                    total == t@.len(),
                    1 <= index,
                    index <= total || index == 1,
                    used == dn_used(t@, index as int),
                decreases total - index,
            {
                proof { lemma_dn_used_le(t@, index as int + 1); }
                if t[index as usize].name != MACH_PORT_NAME_NULL {
                    used = used + 1;
                }
                index = index + 1;
            }
            proof {
                assert(pv(*ports)[p as int].dnrequests == t@);
                if total == 0 {
                    assert(dn_used(t@, 0) == 0);
                    assert(dn_used(t@, 1) == 0);
                }
            }
            Ok((total, used))
        },
    }
}

/// `mach_port_set_qlimit`: set the queue limit of the port whose receive
/// right the space names `name`, waking the blocked senders the new limit
/// makes room for; a limit above `MACH_PORT_QLIMIT_MAX` gives
/// `KERN_INVALID_VALUE`.
pub fn mach_port_set_qlimit(
    space: &ipc_space,
    ports: &mut Vec<ipc_port>,
    psets: &Vec<ipc_pset>,
    threads: &mut Vec<thread>,
    acts: &mut Vec<IpcAction>,
    name: mach_port_name_t,
    qlimit: mach_port_msgcount_t,
) -> (kr: kern_return_t)
    requires
        space_ok(*space, pv(*old(ports))),
        translate_spec(*space, name, MACH_PORT_RIGHT_RECEIVE) matches Ok(p)
            ==> threads_ok(pv(*old(ports))[p as int].blocked, old(threads)@),
    ensures
        qlimit > MACH_PORT_QLIMIT_MAX ==> kr == KERN_INVALID_VALUE
            && mst(*final(ports), *psets, *final(threads), *final(acts)) == mst(*old(ports), *psets, *old(threads), *old(acts)),
        qlimit <= MACH_PORT_QLIMIT_MAX ==> match translate_spec(*space, name, MACH_PORT_RIGHT_RECEIVE) {
            Err(k) => kr == k
                && mst(*final(ports), *psets, *final(threads), *final(acts)) == mst(*old(ports), *psets, *old(threads), *old(acts)),
            Ok(p) => kr == KERN_SUCCESS && mst(*final(ports), *psets, *final(threads), *final(acts))
                == set_qlimit_spec(mst(*old(ports), *psets, *old(threads), *old(acts)), p, qlimit),
        },
{
    if qlimit > MACH_PORT_QLIMIT_MAX {
        return KERN_INVALID_VALUE;
    }
    proof { lemma_translated_port(*space, pv(*ports), name, MACH_PORT_RIGHT_RECEIVE); }
    match ipc_object_translate(space, name, MACH_PORT_RIGHT_RECEIVE) {
        Err(kr) => kr,
        Ok(p) => {
            assert(ports[p as int]@ == pv(*ports)[p as int]);
            ipc_port_set_qlimit(ports, psets, threads, acts, p, qlimit);
            KERN_SUCCESS
        },
    }
}

/// What the calls that reach a receive right's queue rely on: the port's
/// queue and its set's are consistent.
pub open spec fn receive_queue_ok(space: ipc_space, m: MState, name: u32) -> bool {
    translate_spec(space, name, MACH_PORT_RIGHT_RECEIVE) matches Ok(p) ==> port_mqueue_ok(m, p)
}

/// `mach_port_set_seqno`: set the sequence number of the port whose
/// receive right the space names `name`.
pub fn mach_port_set_seqno(
    space: &ipc_space,
    ports: &mut Vec<ipc_port>,
    psets: &mut Vec<ipc_pset>,
    threads: &mut Vec<thread>,
    acts: &mut Vec<IpcAction>,
    name: mach_port_name_t,
    seqno: mach_port_seqno_t,
) -> (kr: kern_return_t)
    requires
        space_ok(*space, pv(*old(ports))),
        receive_queue_ok(*space, mst(*old(ports), *old(psets), *old(threads), *old(acts)), name),
    ensures
        match translate_spec(*space, name, MACH_PORT_RIGHT_RECEIVE) {
            Err(k) => kr == k && mst(*final(ports), *final(psets), *final(threads), *final(acts))
                == mst(*old(ports), *old(psets), *old(threads), *old(acts)),
            Ok(p) => kr == KERN_SUCCESS && mst(*final(ports), *final(psets), *final(threads), *final(acts))
                == set_seqno_spec(mst(*old(ports), *old(psets), *old(threads), *old(acts)), p, seqno),
        },
{
    proof { lemma_translated_port(*space, pv(*ports), name, MACH_PORT_RIGHT_RECEIVE); }
    match ipc_object_translate(space, name, MACH_PORT_RIGHT_RECEIVE) {
        Err(kr) => kr,
        Ok(p) => {
            ipc_port_set_seqno(ports, psets, threads, acts, p, seqno);
            KERN_SUCCESS
        },
    }
}

/// `mach_port_set_protected_payload`: messages to the port whose receive
/// right the space names `name` carry `payload` in place of its name.
pub fn mach_port_set_protected_payload(
    space: &ipc_space,
    ports: &mut Vec<ipc_port>,
    psets: &mut Vec<ipc_pset>,
    threads: &mut Vec<thread>,
    acts: &mut Vec<IpcAction>,
    name: mach_port_name_t,
    payload: u32,
) -> (kr: kern_return_t)
    requires
        space_ok(*space, pv(*old(ports))),
        receive_queue_ok(*space, mst(*old(ports), *old(psets), *old(threads), *old(acts)), name),
    ensures
        match translate_spec(*space, name, MACH_PORT_RIGHT_RECEIVE) {
            Err(k) => kr == k && mst(*final(ports), *final(psets), *final(threads), *final(acts))
                == mst(*old(ports), *old(psets), *old(threads), *old(acts)),
            Ok(p) => kr == KERN_SUCCESS && mst(*final(ports), *final(psets), *final(threads), *final(acts))
                == set_payload_spec(mst(*old(ports), *old(psets), *old(threads), *old(acts)), p, payload),
        },
{
    proof { lemma_translated_port(*space, pv(*ports), name, MACH_PORT_RIGHT_RECEIVE); }
    match ipc_object_translate(space, name, MACH_PORT_RIGHT_RECEIVE) {
        Err(kr) => kr,
        Ok(p) => {
            ipc_port_set_protected_payload(ports, psets, threads, acts, p, payload);
            KERN_SUCCESS
        },
    }
}

/// `mach_port_clear_protected_payload`: messages to the port whose
/// receive right the space names `name` carry its name again.
pub fn mach_port_clear_protected_payload(
    space: &ipc_space,
    ports: &mut Vec<ipc_port>,
    psets: &mut Vec<ipc_pset>,
    threads: &mut Vec<thread>,
    acts: &mut Vec<IpcAction>,
    name: mach_port_name_t,
) -> (kr: kern_return_t)
    requires
        space_ok(*space, pv(*old(ports))),
        receive_queue_ok(*space, mst(*old(ports), *old(psets), *old(threads), *old(acts)), name),
    ensures
        match translate_spec(*space, name, MACH_PORT_RIGHT_RECEIVE) {
            Err(k) => kr == k && mst(*final(ports), *final(psets), *final(threads), *final(acts))
                == mst(*old(ports), *old(psets), *old(threads), *old(acts)),
            Ok(p) => kr == KERN_SUCCESS && mst(*final(ports), *final(psets), *final(threads), *final(acts))
                == clear_payload_spec(mst(*old(ports), *old(psets), *old(threads), *old(acts)), p),
        },
{
    proof { lemma_translated_port(*space, pv(*ports), name, MACH_PORT_RIGHT_RECEIVE); }
    match ipc_object_translate(space, name, MACH_PORT_RIGHT_RECEIVE) {
        Err(kr) => kr,
        Ok(p) => {
            ipc_port_clear_protected_payload(ports, psets, threads, acts, p);
            KERN_SUCCESS
        },
    }
}

/// 1 for true, 0 for false.
pub open spec fn flag(b: bool) -> i32 {
    if b { 1 } else { 0 }
}

/// `mach_port_get_receive_status`: the status of the port `p`, after
/// finding its queue: the live set it belongs to (or no set), its
/// sequence number, make-send count, queue limit and length, send-once
/// rights, whether it has send rights, and whether it has port-destroyed
/// and no-senders requests.
pub open spec fn receive_status_spec(m: MState, p: u32) -> (mach_port_status_t, MState) {
    let (id, m1) = lock_mqueue_spec(m, p);
    let q = m1.ports[p as int];
    (
        mach_port_status_t {
            mps_pset: match id {
                MqueueId::Pset { pset } => m.psets[pset as int].name,
                MqueueId::Port { port } => MACH_PORT_NAME_NULL,
            },
            mps_seqno: q.seqno,
            mps_mscount: q.mscount,
            mps_qlimit: q.qlimit,
            mps_msgcount: q.msgcount,
            mps_sorights: q.sorights,
            mps_srights: flag(q.srights > 0),
            mps_pdrequest: flag(q.pdrequest != 0),
            mps_nsrequest: flag(q.nsrequest != 0),
        },
        m1,
    )
}

/// `mach_port_get_receive_status`: the status of the receive right the
/// space names `name`.
pub fn mach_port_get_receive_status(
    space: &ipc_space,
    ports: &mut Vec<ipc_port>,
    psets: &mut Vec<ipc_pset>,
    threads: &mut Vec<thread>,
    acts: &mut Vec<IpcAction>,
    name: mach_port_name_t,
) -> (r: Result<mach_port_status_t, kern_return_t>)
    requires
        space_ok(*space, pv(*old(ports))),
        receive_queue_ok(*space, mst(*old(ports), *old(psets), *old(threads), *old(acts)), name),
    ensures
        match translate_spec(*space, name, MACH_PORT_RIGHT_RECEIVE) {
            Err(k) => r == Err::<mach_port_status_t, kern_return_t>(k)
                && mst(*final(ports), *final(psets), *final(threads), *final(acts))
                == mst(*old(ports), *old(psets), *old(threads), *old(acts)),
            Ok(p) => {
                let (st, m1) = receive_status_spec(mst(*old(ports), *old(psets), *old(threads), *old(acts)), p);
                &&& r == Ok::<mach_port_status_t, kern_return_t>(st)
                &&& mst(*final(ports), *final(psets), *final(threads), *final(acts)) == m1
            },
        },
{
    proof { lemma_translated_port(*space, pv(*ports), name, MACH_PORT_RIGHT_RECEIVE); }
    let p = match ipc_object_translate(space, name, MACH_PORT_RIGHT_RECEIVE) {
        Err(kr) => { return Err(kr); },
        Ok(p) => p,
    };
    let ghost m0 = mst(*ports, *psets, *threads, *acts);
    let id = ipc_port_lock_mqueue(ports, psets, threads, acts, p);
    let pset_name = match id {
        MqueueId::Pset { pset } => psets[pset as usize].ips_local_name,
        MqueueId::Port { port: _ } => MACH_PORT_NAME_NULL,
    };
    proof {
        assert(pv(*ports).len() == ports.len());
        assert(ports[p as int]@ == pv(*ports)[p as int]);
        if id is Pset {
            assert(psets[id->pset as int]@ == crate::ipc_mqueue::psv(*psets)[id->pset as int]);
        }
    }
    let q = &ports[p as usize];
    Ok(mach_port_status_t {
        mps_pset: pset_name,
        mps_seqno: q.ip_seqno,
        mps_mscount: q.ip_mscount,
        mps_qlimit: q.ip_qlimit,
        mps_msgcount: q.ip_msgcount,
        mps_sorights: q.ip_sorights,
        mps_srights: if q.ip_srights > 0 { 1 } else { 0 },
        mps_pdrequest: if q.ip_pdrequest != 0 { 1 } else { 0 },
        mps_nsrequest: if q.ip_nsrequest != 0 { 1 } else { 0 },
    })
}

/// `mach_port_set_ktype`: make the port the space names `name` by the
/// right `right` a user device port or no kernel object; only a port that
/// is one of these already can change.  A null host gives
/// `KERN_INVALID_HOST`, another kind of object `KERN_INVALID_ARGUMENT`.
/// (A port-set or dead-name right has no port to change.)
pub open spec fn set_ktype_spec(host_priv: u32, space: ipc_space, ports: Seq<PortModel>, name: u32, right: u32, ktype: u32)
    -> (i32, Seq<PortModel>)
{
    if host_priv == 0 {
        (KERN_INVALID_HOST, ports)
    } else if ktype != MACH_PORT_KTYPE_NONE && ktype != MACH_PORT_KTYPE_USER_DEVICE {
        (KERN_INVALID_ARGUMENT, ports)
    } else {
        match translate_spec(space, name, right) {
            Err(k) => (k, ports),
            Ok(p) => {
                let q = ports[p as int];
                if q.kotype == IKOT_NONE || q.kotype == IKOT_USER_DEVICE {
                    let kotype = if ktype == MACH_PORT_KTYPE_NONE { IKOT_NONE } else { IKOT_USER_DEVICE };
                    (KERN_SUCCESS, ports.update(p as int, PortModel { kotype, ..q }))
                } else {
                    (KERN_INVALID_ARGUMENT, ports)
                }
            },
        }
    }
}

/// `mach_port_set_ktype`.
pub fn mach_port_set_ktype(
    host_priv: u32,
    space: &ipc_space,
    ports: &mut Vec<ipc_port>,
    name: mach_port_name_t,
    right: mach_port_right_t,
    ktype: u32,
) -> (kr: kern_return_t)
    requires
        space_ok(*space, pv(*old(ports))),
        right <= MACH_PORT_RIGHT_SEND_ONCE,
    ensures
        (kr, pv(*final(ports))) == set_ktype_spec(host_priv, *space, pv(*old(ports)), name, right, ktype),
{
    if host_priv == 0 {
        return KERN_INVALID_HOST;
    }
    if ktype != MACH_PORT_KTYPE_NONE && ktype != MACH_PORT_KTYPE_USER_DEVICE {
        return KERN_INVALID_ARGUMENT;
    }
    proof { lemma_translated_port(*space, pv(*ports), name, right); }
    let p = match ipc_object_translate(space, name, right) {
        Err(kr) => { return kr; },
        Ok(p) => p,
    };
    let kotype = ports[p as usize].ip_kotype;
    if kotype == IKOT_NONE || kotype == IKOT_USER_DEVICE {
        ports[p as usize].ip_kotype = if ktype == MACH_PORT_KTYPE_NONE { IKOT_NONE } else { IKOT_USER_DEVICE };
        proof {
            let r = set_ktype_spec(host_priv, *space, pv(*old(ports)), name, right, ktype);
            assert(pv(*ports) =~= r.1);
        }
        KERN_SUCCESS
    } else {
        KERN_INVALID_ARGUMENT
    }
}

// ─── Port-set membership ─────────────────────────────────────────

/// The names under which the first `n` entries hold receive rights to
/// ports of the set `pset`, in the order of the entries.
pub open spec fn set_members(entries: Seq<ipc_entry>, ports: Seq<PortModel>, pset: u32, n: int) -> Seq<u32>
    decreases n,
{
    if n <= 0 {
        Seq::empty()
    } else {
        let prev = set_members(entries, ports, pset, n - 1);
        let e = entries[n - 1];
        if e.ie_bits & MACH_PORT_TYPE_RECEIVE != 0 && ports[e.ie_object as int].pset == pset {
            prev.push(ports[e.ie_object as int].receiver_name)
        } else {
            prev
        }
    }
}

/// `mach_port_get_set_status`: the names of the receive rights of the
/// space whose ports belong to the port set it names `name`, in the order
/// of its entries; `KERN_INVALID_RIGHT` when `name` denotes no port set.
pub fn mach_port_get_set_status(space: &ipc_space, ports: &Vec<ipc_port>, name: mach_port_name_t)
    -> (r: Result<Vec<mach_port_name_t>, kern_return_t>)
    requires
        space_ok(*space, pv(*ports)),
    ensures
        !space.is_active ==> r == Err::<Vec<mach_port_name_t>, kern_return_t>(KERN_INVALID_TASK),
        space.is_active && lookup_spec(*space, name) is None ==> r == Err::<Vec<mach_port_name_t>, kern_return_t>(KERN_INVALID_NAME),
        space.is_active && lookup_spec(*space, name) is Some ==> {
            let e = space.is_entries[lookup_spec(*space, name)->0];
            &&& ie_type(e.ie_bits) != MACH_PORT_TYPE_PORT_SET ==> r == Err::<Vec<mach_port_name_t>, kern_return_t>(KERN_INVALID_RIGHT)
            &&& ie_type(e.ie_bits) == MACH_PORT_TYPE_PORT_SET ==> (r matches Ok(names)
                && names@ == set_members(space.is_entries@, pv(*ports), e.ie_object, space.is_entries.len() as int))
        },
{
    let i = match ipc_right_lookup_write(space, name) {
        Err(kr) => { return Err(kr); },
        Ok(i) => i,
    };
    let e = get_entry(space, i);
    if ie_bits_type(e.ie_bits) != MACH_PORT_TYPE_PORT_SET {
        return Err(KERN_INVALID_RIGHT);
    }
    let pset = e.ie_object;
    let mut names: Vec<mach_port_name_t> = Vec::new();
    let mut k: usize = 0;
    while k < space.is_entries.len()
        invariant
            k <= space.is_entries.len(),
            space_ok(*space, pv(*ports)),
            names@ == set_members(space.is_entries@, pv(*ports), pset, k as int),
        decreases space.is_entries.len() - k,
    {
        let ek = get_entry(space, k);
        if ek.ie_bits & MACH_PORT_TYPE_RECEIVE != 0 {
            proof {
                lemma_receive_is_port_right(ek.ie_bits);
                lemma_receive_in_use(ek.ie_bits);
                assert(in_use(space.is_entries[k as int]));
                assert(pv(*ports)[ek.ie_object as int] == ports[ek.ie_object as int]@);
            }
            let q = &ports[ek.ie_object as usize];
            if q.ip_pset == pset {
                names.push(q.ip_receiver_name);
            }
        }
        k = k + 1;
    }
    Ok(names)
}

/// An entry holding a receive right is in use.
proof fn lemma_receive_in_use(bits: u32)
    ensures
        bits & MACH_PORT_TYPE_RECEIVE != 0 ==> in_use(ipc_entry { ie_name: 0, ie_bits: bits, ie_object: 0, ie_request: 0 }),
{
    lemma_receive_is_port_right(bits);
}

/// `mach_port_move_member`: the status and state once the port whose
/// receive right the space names `member` moves into the port set it
/// names `after` (into no set when `after` is null).
pub open spec fn move_member_spec(space: ipc_space, m: MState, member: u32, after: u32) -> (i32, MState) {
    if !space.is_active {
        (KERN_INVALID_TASK, m)
    } else {
        match lookup_spec(space, member) {
            None => (KERN_INVALID_NAME, m),
            Some(i) => {
                let e = space.is_entries[i];
                if e.ie_bits & MACH_PORT_TYPE_RECEIVE == 0 {
                    (KERN_INVALID_RIGHT, m)
                } else if after == MACH_PORT_NAME_NULL {
                    pset_move_spec(m, e.ie_object, 0)
                } else {
                    match lookup_spec(space, after) {
                        None => (KERN_INVALID_NAME, m),
                        Some(j) => if space.is_entries[j].ie_bits & MACH_PORT_TYPE_PORT_SET == 0 {
                            (KERN_INVALID_RIGHT, m)
                        } else {
                            pset_move_spec(m, e.ie_object, space.is_entries[j].ie_object)
                        },
                    }
                }
            },
        }
    }
}

/// What `mach_port_move_member` relies on: the queues the move touches
/// are consistent and the new set is alive.
pub open spec fn move_member_ok(space: ipc_space, m: MState, member: u32, after: u32) -> bool {
    lookup_spec(space, member) matches Some(i) ==> {
        let e = space.is_entries[i];
        e.ie_bits & MACH_PORT_TYPE_RECEIVE != 0 ==> {
            if after == MACH_PORT_NAME_NULL {
                pset_move_ok(m, e.ie_object, 0)
            } else {
                lookup_spec(space, after) matches Some(j) ==> (space.is_entries[j].ie_bits & MACH_PORT_TYPE_PORT_SET != 0
                    ==> pset_move_ok(m, e.ie_object, space.is_entries[j].ie_object))
            }
        }
    }
}

/// `mach_port_move_member`.
pub fn mach_port_move_member(
    space: &ipc_space,
    ports: &mut Vec<ipc_port>,
    psets: &mut Vec<ipc_pset>,
    threads: &mut Vec<thread>,
    acts: &mut Vec<IpcAction>,
    member: mach_port_name_t,
    after: mach_port_name_t,
) -> (kr: kern_return_t)
    requires
        names_unique(*space),
        move_member_ok(*space, mst(*old(ports), *old(psets), *old(threads), *old(acts)), member, after),
    ensures
        (kr, mst(*final(ports), *final(psets), *final(threads), *final(acts)))
            == move_member_spec(*space, mst(*old(ports), *old(psets), *old(threads), *old(acts)), member, after),
{
    let i = match ipc_right_lookup_write(space, member) {
        Err(kr) => { return kr; },
        Ok(i) => i,
    };
    let e = get_entry(space, i);
    if e.ie_bits & MACH_PORT_TYPE_RECEIVE == 0 {
        return KERN_INVALID_RIGHT;
    }
    let nset = if after == MACH_PORT_NAME_NULL {
        0
    } else {
        match ipc_entry_lookup(space, after) {
            None => { return KERN_INVALID_NAME; },
            Some(j) => {
                let e2 = get_entry(space, j);
                if e2.ie_bits & MACH_PORT_TYPE_PORT_SET == 0 {
                    return KERN_INVALID_RIGHT;
                }
                e2.ie_object
            },
        }
    };
    ipc_pset_move(ports, psets, threads, acts, e.ie_object, nset)
}

// ─── Notification requests ───────────────────────────────────────

/// `mach_port_request_notification`: register `notify` (a send-once right,
/// or 0 for none) for the notification `id` about the right the space
/// names `name`, returning the status and the previous request.  A
/// port-destroyed or no-senders request goes on the port whose receive
/// right `name` denotes (`sync` is the make-send count a no-senders
/// request waits for, and must be 0 for a port-destroyed one); a dead-name
/// request goes on the entry (`sync` nonzero asks for an immediate
/// notification when the name is already dead).  A dead `notify` gives
/// `KERN_INVALID_CAPABILITY`, another `id` `KERN_INVALID_VALUE`.
pub fn mach_port_request_notification(
    space: &mut ipc_space,
    ports: &mut Vec<ipc_port>,
    acts: &mut Vec<IpcAction>,
    sizes: &Vec<u32>,
    name: mach_port_name_t,
    id: mach_msg_id_t,
    sync: mach_port_mscount_t,
    notify: u32,
) -> (r: (kern_return_t, u32))
    requires
        space_ok(*old(space), pv(*old(ports))),
        ports_dn_ok(pv(*old(ports)), sizes@),
        sizes_ok(sizes@),
    ensures
        notify == IO_DEAD || (id != MACH_NOTIFY_DEAD_NAME) ==> *final(space) == *old(space),
        notify == IO_DEAD ==> r.0 == KERN_INVALID_CAPABILITY && pv(*final(ports)) == pv(*old(ports)) && final(acts)@ == old(acts)@,
        notify != IO_DEAD && id == MACH_NOTIFY_PORT_DESTROYED ==> {
            if sync != 0 {
                r.0 == KERN_INVALID_VALUE && pv(*final(ports)) == pv(*old(ports)) && final(acts)@ == old(acts)@
            } else {
                match translate_spec(*old(space), name, MACH_PORT_RIGHT_RECEIVE) {
                    Err(k) => r.0 == k && pv(*final(ports)) == pv(*old(ports)) && final(acts)@ == old(acts)@,
                    Ok(p) => r == (KERN_SUCCESS, pv(*old(ports))[p as int].pdrequest) && final(acts)@ == old(acts)@
                        && pv(*final(ports)) == pv(*old(ports)).update(p as int,
                            PortModel { pdrequest: notify, ..pv(*old(ports))[p as int] }),
                }
            }
        },
        notify != IO_DEAD && id == MACH_NOTIFY_NO_SENDERS ==> match translate_spec(*old(space), name, MACH_PORT_RIGHT_RECEIVE) {
            Err(k) => r.0 == k && pv(*final(ports)) == pv(*old(ports)) && final(acts)@ == old(acts)@,
            Ok(p) => {
                let (q, a) = nsrequest_spec(pv(*old(ports))[p as int], sync, notify);
                &&& r == (KERN_SUCCESS, pv(*old(ports))[p as int].nsrequest)
                &&& pv(*final(ports)) == pv(*old(ports)).update(p as int, q)
                &&& final(acts)@ == old(acts)@ + a
            },
        },
        notify != IO_DEAD && id == MACH_NOTIFY_DEAD_NAME ==> {
            &&& !old(space).is_active ==> r.0 == KERN_INVALID_TASK && *final(space) == *old(space)
                && *final(ports) == *old(ports) && *final(acts) == *old(acts)
            &&& old(space).is_active && lookup_spec(*old(space), name) is None ==> r.0 == KERN_INVALID_NAME
                && *final(space) == *old(space) && *final(ports) == *old(ports) && *final(acts) == *old(acts)
            &&& old(space).is_active && lookup_spec(*old(space), name) is Some ==> {
                let i = lookup_spec(*old(space), name)->0 as usize;
                let (k, prev, st) = st_dnrequest(rstate(*old(space), i, *old(ports), *old(acts)), sizes@, sync != 0, notify);
                &&& r == (k, prev)
                &&& st == rstate(*final(space), i, *final(ports), *final(acts))
                &&& space_frame(*old(space), *final(space), i)
            }
        },
        notify != IO_DEAD && id != MACH_NOTIFY_PORT_DESTROYED && id != MACH_NOTIFY_NO_SENDERS && id != MACH_NOTIFY_DEAD_NAME
            ==> r.0 == KERN_INVALID_VALUE && pv(*final(ports)) == pv(*old(ports)) && final(acts)@ == old(acts)@,
{
    if notify == IO_DEAD {
        return (KERN_INVALID_CAPABILITY, 0);
    }
    proof { lemma_translated_port(*space, pv(*ports), name, MACH_PORT_RIGHT_RECEIVE); }
    if id == MACH_NOTIFY_PORT_DESTROYED {
        if sync != 0 {
            return (KERN_INVALID_VALUE, 0);
        }
        match ipc_object_translate(space, name, MACH_PORT_RIGHT_RECEIVE) {
            Err(kr) => (kr, 0),
            Ok(p) => {
                let previous = ipc_port_pdrequest(ports, p, notify);
                (KERN_SUCCESS, previous)
            },
        }
    } else if id == MACH_NOTIFY_NO_SENDERS {
        match ipc_object_translate(space, name, MACH_PORT_RIGHT_RECEIVE) {
            Err(kr) => (kr, 0),
            Ok(p) => {
                let previous = ipc_port_nsrequest(ports, acts, p, sync, notify);
                (KERN_SUCCESS, previous)
            },
        }
    } else if id == MACH_NOTIFY_DEAD_NAME {
        let immediate: boolean_t = if sync != 0 { 1 } else { 0 };
        ipc_right_dnrequest(space, ports, acts, sizes, name, immediate, notify)
    } else {
        (KERN_INVALID_VALUE, 0)
    }
}

// ─── Single rights in and out ────────────────────────────────────

/// `mach_port_insert_right`: put the right of kind `poly_poly` (a moved
/// receive, send or send-once right) to the port `poly` into the space
/// under `name`.  A null or dead name, or another kind, gives
/// `KERN_INVALID_VALUE`; a null or dead port `KERN_INVALID_CAPABILITY`.
pub fn mach_port_insert_right(
    space: &mut ipc_space,
    ports: &mut Vec<ipc_port>,
    acts: &mut Vec<IpcAction>,
    name: mach_port_name_t,
    poly: u32,
    poly_poly: mach_msg_type_name_t,
) -> (kr: kern_return_t)
    requires
        copyout_space_ok(*old(space), pv(*old(ports))),
        keys_unique(old(space).is_entries@),
        name_valid(name) && MACH_MSG_TYPE_MOVE_RECEIVE <= poly_poly <= MACH_MSG_TYPE_MOVE_SEND_ONCE
            && poly != 0 && poly != IO_DEAD ==> {
            &&& poly < old(ports).len()
            &&& object_copyout_name_ok(sst(*old(space), *old(ports), *old(acts)), old(space).is_id, poly, poly_poly, name)
        },
    ensures
        !name_valid(name) || !(MACH_MSG_TYPE_MOVE_RECEIVE <= poly_poly <= MACH_MSG_TYPE_MOVE_SEND_ONCE)
            ==> kr == KERN_INVALID_VALUE && sst(*final(space), *final(ports), *final(acts)) == sst(*old(space), *old(ports), *old(acts)),
        name_valid(name) && MACH_MSG_TYPE_MOVE_RECEIVE <= poly_poly <= MACH_MSG_TYPE_MOVE_SEND_ONCE
            && (poly == 0 || poly == IO_DEAD)
            ==> kr == KERN_INVALID_CAPABILITY && sst(*final(space), *final(ports), *final(acts)) == sst(*old(space), *old(ports), *old(acts)),
        name_valid(name) && MACH_MSG_TYPE_MOVE_RECEIVE <= poly_poly <= MACH_MSG_TYPE_MOVE_SEND_ONCE
            && poly != 0 && poly != IO_DEAD
            ==> (kr, sst(*final(space), *final(ports), *final(acts))) == object_copyout_name_spec(
                sst(*old(space), *old(ports), *old(acts)), old(space).is_active, old(space).is_id, poly, poly_poly, false, name),
        final(space).is_active == old(space).is_active,
        final(space).is_id == old(space).is_id,
{
    if name == MACH_PORT_NAME_NULL || name == MACH_PORT_NAME_DEAD || !MACH_MSG_TYPE_PORT_ANY_RIGHT(poly_poly) {
        return KERN_INVALID_VALUE;
    }
    if poly == 0 || poly == IO_DEAD {
        return KERN_INVALID_CAPABILITY;
    }
    ipc_object_copyout_name(space, ports, acts, poly, poly_poly, false, name)
}

/// `mach_port_extract_right`: take a right of kind `msgt_name` out of the
/// entry the space names `name`; returns the status, the port, and the
/// kind of right the caller now holds (0 on failure).  A kind that is no
/// port right (the protected payload among them) gives
/// `KERN_INVALID_VALUE`.
pub fn mach_port_extract_right(
    space: &mut ipc_space,
    ports: &mut Vec<ipc_port>,
    acts: &mut Vec<IpcAction>,
    name: mach_port_name_t,
    msgt_name: mach_msg_type_name_t,
) -> (r: (kern_return_t, u32, mach_msg_type_name_t))
    requires
        names_unique(*old(space)),
        is_port_right(msgt_name) ==> object_copyin_ok(sst(*old(space), *old(ports), *old(acts)), *old(space), name),
    ensures
        !is_port_right(msgt_name) ==> r.0 == KERN_INVALID_VALUE
            && sst(*final(space), *final(ports), *final(acts)) == sst(*old(space), *old(ports), *old(acts)),
        is_port_right(msgt_name) ==> {
            let (kr, object, s1) = object_copyin_spec(sst(*old(space), *old(ports), *old(acts)), *old(space), name, msgt_name);
            &&& r == (kr, object, if kr == KERN_SUCCESS { copyin_type_spec(msgt_name) } else { 0 })
            &&& sst(*final(space), *final(ports), *final(acts)) == s1
        },
{
    if !MACH_MSG_TYPE_PORT_ANY(msgt_name) || msgt_name == MACH_MSG_TYPE_PROTECTED_PAYLOAD {
        return (KERN_INVALID_VALUE, 0, 0);
    }
    let (kr, object) = ipc_object_copyin(space, ports, acts, name, msgt_name);
    if kr == KERN_SUCCESS {
        (kr, object, ipc_object_copyin_type(msgt_name))
    } else {
        (kr, object, 0)
    }
}

} // verus!
