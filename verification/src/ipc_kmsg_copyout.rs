//! Copying the header of a received message out to the receiver: the
//! rights the message carries for its destination and reply become names
//! of the receiving space, and the header's bits say what kind of name
//! each field now holds.

use vstd::prelude::*;
use crate::ipc_entry::{alloc_spec, first_free, free_ok, ipc_entry_alloc, ipc_entry_get, ipc_entry_dealloc, name_used, name_valid};
use crate::ipc_kmsg::{at, bad_notify, lemma_put, port_reference, port_release, put, release_sonce_spec, srel, sref, sst, SState, ipc_port_release_sonce};
use crate::ipc_object::{
    copyout_dest_spec, dest_ok, ipc_object_copyout_dest, copyout_room, copyout_space_ok, grows_free, ipc_port_lookup_notify, ipc_right_reverse, lemma_alloc_grows,
    lemma_grows_free, lookup_notify_spec, notify_room, reverse_spec, };
use crate::ipc_port::{dn_has_room, dn_registered, dn_table_ok, grow_index, grown_table, ipc_port_dngrow, ipc_port_dnrequest, sizes_ok};
use crate::ipc_right::{
    freed, get_entry, in_use, ipc_entry, ipc_entry_lookup, ipc_port, names_unique, ipc_right_copyout, ipc_space, lookup_in, pv, rstate, set_entry,
    space_ok, st_copyout, IpcAction, PortModel, IO_DEAD,
};
use crate::mach_types::{
    ip_timestamp_order, lemma_msgh_bits, mach_msgh_bits_remote, mach_msg_header_t, MACH_MSGH_BITS, MACH_MSGH_BITS_LOCAL,
    MACH_MSGH_BITS_OTHER, MACH_MSGH_BITS_PORTS, MACH_PORT_TYPE_RECEIVE, mach_msg_return_t, mach_port_name_t, MACH_MSG_SUCCESS,
    MACH_MSG_TYPE_PROTECTED_PAYLOAD, MACH_PORT_TYPE_SEND_ONCE, MACH_MSG_IPC_KERNEL, MACH_MSG_IPC_SPACE, MACH_MSG_TYPE_PORT_SEND, MACH_MSG_TYPE_PORT_SEND_ONCE,
    MACH_PORT_NAME_DEAD, MACH_PORT_NAME_NULL, MACH_RCV_HEADER_ERROR, MACH_RCV_INVALID_NOTIFY, KERN_SUCCESS,
};

verus! {

// ─── Placing the reply right ─────────────────────────────────────

/// What a placement guarantees: the entry names the live reply port, and
/// the notify right to give up afterwards, if any, is there.
pub open spec fn place_facts(space: ipc_space, ports: Seq<PortModel>, reply: u32, idx: usize, np: u32) -> bool {
    &&& space.is_active
    &&& idx < space.is_entries.len()
    &&& space.is_entries[idx as int].ie_object == reply
    &&& 0 < reply < ports.len()
    &&& ports[reply as int].active
    &&& ports[reply as int].references > 0
    &&& np != 0 ==> 0 < np < ports.len() && ports[np as int].sorights > 0 && ports[np as int].references > 0
}

/// Where the reply right of a message goes.
pub ghost enum Placement {
    /// Into entry `idx` of the space in state `s` (the entry already names
    /// the port); `np` is a send-once right of the notify port to give up
    /// afterwards (0 for none).
    Place { idx: int, np: u32, s: SState },
    /// Nowhere: the reply port died and the right is gone.
    Dead { s: SState },
    /// The copy-out fails with `code`.
    Fail { code: i32, s: SState },
    /// The reply port's dead-name table must grow before a request fits.
    Grow { s: SState },
}

/// The notify port of the message, with a send-once right made for it.
pub open spec fn notify_of(s: SState, notify: u32) -> (u32, SState) {
    if notify == MACH_PORT_NAME_NULL {
        (0, s)
    } else {
        let (np, ps) = lookup_notify_spec(s.entries, s.ports, notify);
        (np, SState { ports: ps, ..s })
    }
}

/// One try at finding or making the entry for the reply right: the entry
/// already naming the port (unless the right is a send-once right), or a
/// new one, registered for a dead-name notification to the notify port
/// when there is one.
pub open spec fn reply_attempt(s: SState, active: bool, space_id: u32, fresh: u32, rt: u32, reply: u32, notify: u32)
    -> Placement
{
    if !active {
        Placement::Fail { code: MACH_RCV_HEADER_ERROR | MACH_MSG_IPC_SPACE, s }
    } else {
        let (np, s1) = notify_of(s, notify);
        if notify != MACH_PORT_NAME_NULL && np == 0 {
            Placement::Fail { code: MACH_RCV_INVALID_NOTIFY, s }
        } else if rt != MACH_MSG_TYPE_PORT_SEND_ONCE && reverse_spec(s1.entries, s1.ports, space_id, reply) is Some {
            Placement::Place { idx: reverse_spec(s1.entries, s1.ports, space_id, reply)->0, np, s: s1 }
        } else if !s1.ports[reply as int].active {
            let s2 = srel(s1, reply);
            Placement::Dead { s: if np != 0 { release_sonce_spec(s2, np) } else { s2 } }
        } else {
            let (ents, i) = alloc_spec(s1.entries, fresh);
            let e = ents[i];
            let q = s1.ports[reply as int];
            if np == 0 {
                Placement::Place { idx: i, np: 0, s: SState { entries: ents.update(i, ipc_entry { ie_object: reply, ..e }), ..s1 } }
            } else if dn_has_room(q.dnrequests) {
                Placement::Place {
                    idx: i,
                    np: 0,
                    s: SState {
                        entries: ents.update(i, ipc_entry { ie_object: reply, ie_request: q.dnrequests[0].notify, ..e }),
                        ports: s1.ports.update(reply as int, dn_registered(q, e.ie_name, np)),
                        ..s1
                    },
                }
            } else {
                Placement::Grow { s: release_sonce_spec(SState { entries: ents.update(i, freed(e)), ..s1 }, np) }
            }
        }
    }
}

/// The reply port with its dead-name table grown to the next size.
pub open spec fn grown_port(s: SState, p: u32, sizes: Seq<u32>) -> SState {
    let q = s.ports[p as int];
    let t = q.dnrequests;
    let gi = grow_index(t);
    SState { ports: s.ports.update(p as int, PortModel { dnrequests: grown_table(t, gi, sizes[gi] as nat), ..q }), ..s }
}

/// Placing the reply right, growing the reply port's dead-name table once
/// when it is full.
pub open spec fn reply_phase(s: SState, active: bool, space_id: u32, sizes: Seq<u32>, fresh: u32, rt: u32, reply: u32, notify: u32)
    -> Placement
{
    match reply_attempt(s, active, space_id, fresh, rt, reply, notify) {
        Placement::Grow { s: s1 } => {
            let t = s1.ports[reply as int].dnrequests;
            if sizes[grow_index(t)] == 0 {
                Placement::Fail { code: MACH_RCV_HEADER_ERROR | MACH_MSG_IPC_KERNEL, s: s1 }
            } else {
                reply_attempt(grown_port(s1, reply, sizes), active, space_id, fresh, rt, reply, notify)
            }
        },
        a => a,
    }
}

/// What one try needs: a consistent space, a reply port with its
/// reference and a well-formed dead-name table, room at the notify port,
/// and a usable fresh name when no entry is free.
pub open spec fn attempt_ok(space: ipc_space, ports: Seq<PortModel>, sizes: Seq<u32>, fresh: u32, reply: u32, notify: u32) -> bool {
    &&& copyout_space_ok(space, ports)
    &&& 0 < reply < ports.len()
    &&& ports[reply as int].references > 0
    &&& notify_room(space.is_entries@, ports, notify)
    &&& first_free(space.is_entries@) is None ==> name_valid(fresh) && !name_used(space.is_entries@, fresh)
    &&& dn_table_ok(ports[reply as int].dnrequests, sizes)
    &&& sizes_ok(sizes)
}

proof fn lemma_notify_port(space: ipc_space, ports: Seq<PortModel>, notify: u32)
    requires
        space_ok(space, ports),
        notify != MACH_PORT_NAME_NULL,
    ensures
        ({
            let (np, ps) = lookup_notify_spec(space.is_entries@, ports, notify);
            &&& np != 0 ==> 0 < np < ports.len() && ports[np as int].references > 0 && ps.len() == ports.len()
            &&& np == 0 ==> ps == ports
        }),
{
    match lookup_in(space.is_entries@, notify) {
        None => {},
        Some(i) => {
            let e = space.is_entries@[i];
            assert(in_use(e));
            if e.ie_bits & crate::mach_types::MACH_PORT_TYPE_RECEIVE != 0 {
                crate::ipc_object::lemma_receive_is_port_right(e.ie_bits);
            }
        },
    }
}

/// One try at placing the reply right; the tag says which placement came
/// out (0 place, 1 dead, 2 fail, 3 grow), with the code, entry and notify
/// right that go with it.
fn reply_attempt_exec(
    space: &mut ipc_space,
    ports: &mut Vec<ipc_port>,
    acts: &mut Vec<IpcAction>,
    fresh: mach_port_name_t,
    rt: u32,
    reply: u32,
    notify: mach_port_name_t,
) -> (r: (u32, i32, usize, u32))
    requires
        copyout_space_ok(*old(space), pv(*old(ports))),
        0 < reply < old(ports).len(),
        old(ports)[reply as int].ip_references > 0,
        notify_room(old(space).is_entries@, pv(*old(ports)), notify),
        first_free(old(space).is_entries@) is None ==> name_valid(fresh) && !name_used(old(space).is_entries@, fresh),
        ({
            let t = old(ports)[reply as int].ip_dnrequests@;
            t.len() > 0 ==> t[0].notify < t.len() && (t[0].notify != 0 ==> t[t[0].notify as int].name == MACH_PORT_NAME_NULL)
        }),
    ensures
        final(space).is_active == old(space).is_active,
        final(space).is_id == old(space).is_id,
        final(ports).len() == old(ports).len(),
        grows_free(old(space).is_entries@, final(space).is_entries@),
        final(space).is_entries.len() <= old(space).is_entries.len() + 1,
        r.0 != 0 ==> free_ok(final(space).is_entries@),
        r.0 == 0 ==> place_facts(*final(space), pv(*final(ports)), reply, r.2, r.3),
        r.0 == 3 ==> {
            &&& r.2 < final(space).is_entries.len()
            &&& !in_use(final(space).is_entries[r.2 as int])
            &&& pv(*final(ports)) == pv(*old(ports))
            &&& final(acts)@ == old(acts)@
            &&& old(ports)[reply as int].ip_active
        },
        match reply_attempt(sst(*old(space), *old(ports), *old(acts)), old(space).is_active, old(space).is_id, fresh, rt, reply, notify) {
            Placement::Place { idx, np, s } => r.0 == 0 && r.2 == idx && r.3 == np && sst(*final(space), *final(ports), *final(acts)) == s,
            Placement::Dead { s } => r.0 == 1 && sst(*final(space), *final(ports), *final(acts)) == s,
            Placement::Fail { code, s } => r.0 == 2 && r.1 == code && sst(*final(space), *final(ports), *final(acts)) == s,
            Placement::Grow { s } => r.0 == 3 && sst(*final(space), *final(ports), *final(acts)) == s,
        },
{
    let ghost s0 = sst(*space, *ports, *acts);
    if !space.is_active {
        return (2, MACH_RCV_HEADER_ERROR | MACH_MSG_IPC_SPACE, 0, 0);
    }
    let mut np: u32 = 0;
    if notify != MACH_PORT_NAME_NULL {
        proof { lemma_notify_port(*space, pv(*ports), notify); }
        np = ipc_port_lookup_notify(space, ports, notify);
        if np == 0 {
            return (2, MACH_RCV_INVALID_NOTIFY, 0, 0);
        }
    }
    let ghost s1 = sst(*space, *ports, *acts);
    assert(s1 =~= notify_of(s0, notify).1);
    if rt != MACH_MSG_TYPE_PORT_SEND_ONCE {
        match ipc_right_reverse(space, ports, reply) {
            Some((_name, i)) => {
                return (0, 0, i, np);
            },
            None => {},
        }
    }
    if !ports[reply as usize].ip_active {
        let ghost sa = sst(*space, *ports, *acts);
        port_release(ports, reply, acts);
        assert(sst(*space, *ports, *acts) == srel(sa, reply));
        if np != 0 {
            assert(pv(*ports)[np as int].sorights > 0);
            ipc_port_release_sonce(ports, np, acts);
            assert(sst(*space, *ports, *acts) == release_sonce_spec(srel(sa, reply), np));
        }
        return (1, 0, 0, 0);
    }
    proof { lemma_alloc_grows(space.is_entries@, fresh); }
    let (_kr, name, i) = ipc_entry_alloc(space, fresh);
    let e = get_entry(space, i);
    if np == 0 {
        set_entry(space, i, ipc_entry { ie_object: reply, ..e });
        return (0, 0, i, 0);
    }
    let (kr2, request) = ipc_port_dnrequest(ports, reply, name, np);
    if kr2 == KERN_SUCCESS {
        set_entry(space, i, ipc_entry { ie_object: reply, ie_request: request, ..e });
        return (0, 0, i, 0);
    }
    let ghost sb = sst(*space, *ports, *acts);
    ipc_port_release_sonce(ports, np, acts);
    assert(sst(*space, *ports, *acts) == release_sonce_spec(sb, np));
    ipc_entry_dealloc(space, i);
    proof {
        assert(pv(*ports) =~= pv(*old(ports)));
        assert(acts@ =~= old(acts)@);
        lemma_freed_ok(old(space).is_entries@, space.is_entries@, i as int);
    }
    (3, 0, i, 0)
}

proof fn lemma_freed_ok(o: Seq<ipc_entry>, n: Seq<ipc_entry>, i: int)
    requires
        free_ok(o),
        grows_free(o, n),
        0 <= i < n.len(),
        n.len() <= o.len() + 1,
        name_valid(n[i].ie_name),
        n[i] == freed(n[i]),
        i == o.len() || forall|j: int| 0 <= j < o.len() && j != i ==> #[trigger] n[j] == o[j],
        i < o.len() || forall|j: int| 0 <= j < o.len() ==> #[trigger] n[j] == o[j],
        i < o.len() ==> n.len() == o.len(),
    ensures
        free_ok(n),
{
    crate::ipc_object::lemma_receive_is_port_right(0);
    assert forall|j: int| 0 <= j < n.len() && !#[trigger] in_use(n[j]) implies {
        &&& n[j].ie_bits == 0
        &&& n[j].ie_object == 0
        &&& n[j].ie_request == 0
        &&& name_valid(n[j].ie_name)
    } by {
        if j != i {
            assert(n[j] == o[j]);
        }
    }
}

/// What placing the reply right needs (the table of sizes is there to
/// grow the reply port's dead-name table).
pub open spec fn reply_ok(space: ipc_space, ports: Seq<PortModel>, sizes: Seq<u32>, fresh: u32, reply: u32, notify: u32) -> bool {
    &&& attempt_ok(space, ports, sizes, fresh, reply, notify)
    &&& space.is_entries.len() + 1 < usize::MAX
}

/// Placing the reply right, with the one growth of the reply port's table
/// a full table calls for; a second try always finds room.
fn reply_phase_exec(
    space: &mut ipc_space,
    ports: &mut Vec<ipc_port>,
    acts: &mut Vec<IpcAction>,
    sizes: &Vec<u32>,
    fresh: mach_port_name_t,
    rt: u32,
    reply: u32,
    notify: mach_port_name_t,
) -> (r: (u32, i32, usize, u32))
    requires
        reply_ok(*old(space), pv(*old(ports)), sizes@, fresh, reply, notify),
    ensures
        final(space).is_active == old(space).is_active,
        final(space).is_id == old(space).is_id,
        final(ports).len() == old(ports).len(),
        r.0 == 0 ==> place_facts(*final(space), pv(*final(ports)), reply, r.2, r.3),
        match reply_phase(sst(*old(space), *old(ports), *old(acts)), old(space).is_active, old(space).is_id, sizes@, fresh,
            rt, reply, notify) {
            Placement::Place { idx, np, s } => r.0 == 0 && r.2 == idx && r.3 == np && sst(*final(space), *final(ports), *final(acts)) == s,
            Placement::Dead { s } => r.0 == 1 && sst(*final(space), *final(ports), *final(acts)) == s,
            Placement::Fail { code, s } => r.0 == 2 && r.1 == code && sst(*final(space), *final(ports), *final(acts)) == s,
            Placement::Grow { s } => false,
        },
{
    let ghost sp0 = *space;
    let ghost pm0 = pv(*ports);
    let r1 = reply_attempt_exec(space, ports, acts, fresh, rt, reply, notify);
    if r1.0 != 3 {
        return r1;
    }
    let ghost sp1 = *space;
    proof {
        lemma_grows_free(sp0, sp1, pm0, notify, reply);
        crate::ipc_right::lemma_grow_ok(pm0[reply as int].dnrequests, sizes@);
    }
    let kr = ipc_port_dngrow(ports, reply, sizes);
    if kr != KERN_SUCCESS {
        return (2, MACH_RCV_HEADER_ERROR | MACH_MSG_IPC_KERNEL, 0, 0);
    }
    proof {
        let t = pm0[reply as int].dnrequests;
        crate::ipc_port::lemma_grown_ok(t, sizes@);
        let nt = grown_table(t, grow_index(t), sizes@[grow_index(t)] as nat);
        crate::ipc_object::lemma_dn_extend(sp1, pm0, reply, nt);
        crate::ipc_entry::lemma_some_free(sp1.is_entries@, r1.2 as int);
        assert(pv(*ports) == pm0.update(reply as int, PortModel { dnrequests: nt, ..pm0[reply as int] }));
        assert(sst(*space, *ports, *acts) == grown_port(sst(sp1, *old(ports), *old(acts)), reply, sizes@));
        assert(pv(*ports)[reply as int].references == pm0[reply as int].references);
        assert(ports[reply as int].ip_references == pv(*ports)[reply as int].references);
        assert forall|x: int| 0 <= x < pm0.len() implies #[trigger] pv(*ports)[x].references == pm0[x].references
            && pv(*ports)[x].sorights == pm0[x].sorights by {
            if x != reply as int {
                assert(pv(*ports)[x] == pm0[x]);
            }
        }
        let g = sst(*space, *ports, *acts);
        lemma_notify_keeps_tables(*space, g.ports, notify, reply);
        lemma_notify_room_same(sp0, *space, pm0, pv(*ports), notify);
        assert(dn_has_room(nt));
    }
    let r2 = reply_attempt_exec(space, ports, acts, fresh, rt, reply, notify);
    r2
}

/// Making a send-once right for the notify port leaves every dead-name
/// table alone.
proof fn lemma_notify_keeps_tables(space: ipc_space, ports: Seq<PortModel>, notify: u32, p: u32)
    requires
        0 <= p < ports.len(),
        space_ok(space, ports),
    ensures
        lookup_notify_spec(space.is_entries@, ports, notify).1.len() == ports.len(),
        lookup_notify_spec(space.is_entries@, ports, notify).1[p as int].dnrequests == ports[p as int].dnrequests,
        lookup_notify_spec(space.is_entries@, ports, notify).1[p as int].active == ports[p as int].active,
{
    let entries = space.is_entries@;
    match lookup_in(entries, notify) {
        None => {},
        Some(i) => {
            if entries[i].ie_bits & crate::mach_types::MACH_PORT_TYPE_RECEIVE != 0 {
                assert(in_use(entries[i]));
                crate::ipc_object::lemma_receive_is_port_right(entries[i].ie_bits);
                let o = entries[i].ie_object;
                if o != p {
                    assert(lookup_notify_spec(entries, ports, notify).1[p as int] == ports[p as int]);
                }
            }
        },
    }
}

/// Room at the notify port depends only on the entries in use and the
/// ports' reference and send-once counts.
proof fn lemma_notify_room_same(s0: ipc_space, s1: ipc_space, pm0: Seq<PortModel>, pm1: Seq<PortModel>, notify: u32)
    requires
        space_ok(s0, pm0),
        grows_free(s0.is_entries@, s1.is_entries@),
        crate::ipc_right::lookup_spec(s1, notify) == crate::ipc_right::lookup_spec(s0, notify),
        pm1.len() == pm0.len(),
        forall|x: int| 0 <= x < pm0.len() ==> #[trigger] pm1[x].references == pm0[x].references
            && pm1[x].sorights == pm0[x].sorights,
        notify_room(s0.is_entries@, pm0, notify),
    ensures
        notify_room(s1.is_entries@, pm1, notify),
{
    match lookup_in(s0.is_entries@, notify) {
        None => {},
        Some(i) => {
            let e = s0.is_entries@[i];
            assert(in_use(e));
            assert(s1.is_entries@[i] == e);
            if e.ie_bits & crate::mach_types::MACH_PORT_TYPE_RECEIVE != 0 {
                crate::ipc_object::lemma_receive_is_port_right(e.ie_bits);
                assert(pm1[e.ie_object as int].references == pm0[e.ie_object as int].references);
            }
        },
    }
}

// ─── The reply right into its entry ──────────────────────────────

/// The reply right copied out into entry `i` (with the reference the space
/// keeps), and the notify right `np` given up.
pub open spec fn place_reply(s: SState, space_id: u32, rt: u32, reply: u32, i: int, np: u32) -> SState {
    let s1 = sref(s, reply);
    let s2 = put(s1, i, st_copyout(at(s1, i), space_id, rt, true).1);
    if np != 0 { release_sonce_spec(s2, np) } else { s2 }
}

/// What copying the reply right out into entry `i` needs: room for one
/// more reference, and what `ipc_right_copyout` needs of the entry.
pub open spec fn place_room(s: SState, rt: u32, reply: u32, i: int) -> bool {
    &&& s.ports[reply as int].references < u32::MAX
    &&& copyout_room(s.entries[i], sref(s, reply).ports, reply, rt)
}

fn place_reply_exec(
    space: &mut ipc_space,
    ports: &mut Vec<ipc_port>,
    acts: &mut Vec<IpcAction>,
    rt: u32,
    reply: u32,
    idx: usize,
    np: u32,
)
    requires
        place_facts(*old(space), pv(*old(ports)), reply, idx, np),
        rt == MACH_MSG_TYPE_PORT_SEND || rt == MACH_MSG_TYPE_PORT_SEND_ONCE,
        place_room(sst(*old(space), *old(ports), *old(acts)), rt, reply, idx as int),
    ensures
        sst(*final(space), *final(ports), *final(acts))
            == place_reply(sst(*old(space), *old(ports), *old(acts)), old(space).is_id, rt, reply, idx as int, np),
        final(space).is_active == old(space).is_active,
        final(space).is_id == old(space).is_id,
        final(ports).len() == old(ports).len(),
{
    let ghost s0 = sst(*space, *ports, *acts);
    port_reference(ports, reply);
    assert(sst(*space, *ports, *acts) == sref(s0, reply));
    let ghost sp1 = *space;
    let ghost s1 = sst(*space, *ports, *acts);
    assert(ports[reply as int]@ == s1.ports[reply as int]);
    let _kr = ipc_right_copyout(space, idx, ports, acts, rt, true, reply);
    proof {
        lemma_put(sp1, *space, idx, *ports, *ports, *acts, *acts, rstate(*space, idx, *ports, *acts));
        assert(sst(*space, *ports, *acts) == put(s1, idx as int, st_copyout(at(s1, idx as int), sp1.is_id, rt, true).1));
    }
    if np != 0 {
        proof {
            if np != reply {
                assert(pv(*ports)[np as int] == pv(*old(ports))[np as int]);
            } else {
                assert(pv(*ports)[np as int].sorights == s1.ports[np as int].sorights);
                assert(pv(*ports)[np as int].references >= s1.ports[np as int].references - 1);
            }
            assert(ports[np as int]@ == pv(*ports)[np as int]);
        }
        let ghost s2 = sst(*space, *ports, *acts);
        ipc_port_release_sonce(ports, np, acts);
        assert(sst(*space, *ports, *acts) == release_sonce_spec(s2, np));
    }
}

// ─── The destination's name ──────────────────────────────────────

/// The destination's right consumed: the name of a live destination, or
/// for a dead one the dead name, or the null name when the reply port is
/// alive-or-dead-later evidence that the destination died after the
/// message was sent.
pub open spec fn dest_phase(s: SState, space_id: u32, dt: u32, dest: u32, reply_var: u32) -> (u32, SState) {
    let q = s.ports[dest as int];
    if q.active {
        copyout_dest_spec(s, space_id, dest, dt)
    } else {
        let s1 = srel(s, dest);
        let dn = if reply_var != 0 && reply_var != IO_DEAD {
            let r = s1.ports[reply_var as int];
            if r.active || (q.timestamp as i32).wrapping_sub(r.timestamp as i32) < 0 {
                MACH_PORT_NAME_DEAD
            } else {
                MACH_PORT_NAME_NULL
            }
        } else {
            MACH_PORT_NAME_DEAD
        };
        (dn, s1)
    }
}

/// What the rest of the copy-out needs once the reply right is placed:
/// the destination's reference and right, and the reply's reference.
pub open spec fn tail_ok(s: SState, space_id: u32, dt: u32, dest: u32, reply_var: u32) -> bool {
    &&& 0 < dest < s.ports.len()
    &&& s.ports[dest as int].references > 0
    &&& s.ports[dest as int].active ==> dest_ok(s.ports, dest, dt)
    &&& reply_var != 0 && reply_var != IO_DEAD ==> {
        &&& reply_var < s.ports.len()
        &&& dest_phase(s, space_id, dt, dest, reply_var).1.ports[reply_var as int].references > 0
    }
}

fn dest_phase_exec(
    space: &ipc_space,
    ports: &mut Vec<ipc_port>,
    acts: &mut Vec<IpcAction>,
    dt: u32,
    dest: u32,
    reply_var: u32,
) -> (dn: mach_port_name_t)
    requires
        tail_ok(sst(*space, *old(ports), *old(acts)), space.is_id, dt, dest, reply_var),
    ensures
        (dn, sst(*space, *final(ports), *final(acts))) == dest_phase(sst(*space, *old(ports), *old(acts)), space.is_id, dt, dest, reply_var),
        final(ports).len() == old(ports).len(),
{
    let ghost s0 = sst(*space, *ports, *acts);
    if ports[dest as usize].ip_active {
        return ipc_object_copyout_dest(space, ports, acts, dest, dt);
    }
    let timestamp = ports[dest as usize].ip_timestamp;
    port_release(ports, dest, acts);
    assert(sst(*space, *ports, *acts) == srel(s0, dest));
    if reply_var != 0 && reply_var != IO_DEAD {
        let ra = ports[reply_var as usize].ip_active;
        let rts = ports[reply_var as usize].ip_timestamp;
        if ra || ip_timestamp_order(timestamp, rts) {
            MACH_PORT_NAME_DEAD
        } else {
            MACH_PORT_NAME_NULL
        }
    } else {
        MACH_PORT_NAME_DEAD
    }
}

// ─── The header ──────────────────────────────────────────────────

/// The header bits after the copy-out: the other bits kept, the reply's
/// type as remote type and the destination's as local type.
pub open spec fn out_bits(bits: u32, remote_type: u32, local_type: u32) -> u32 {
    (bits & !0xffffu32) | (remote_type | (local_type << 8u32))
}

/// The local type and name of the header for a destination whose payload
/// flag is `pp`: the payload in place of the name when the flag is set.
pub open spec fn local_of(pp: bool, dt: u32, payload: u32, dn: u32) -> (u32, u32) {
    if pp { (MACH_MSG_TYPE_PROTECTED_PAYLOAD, payload) } else { (dt, dn) }
}

/// Does the common request case (a send right to the destination, a
/// send-once reply right, no notify name) find everything it needs?
pub open spec fn fast_request_taken(s: SState, active: bool, dest: u32, reply: u32) -> bool {
    &&& reply != 0 && reply != IO_DEAD
    &&& active
    &&& first_free(s.entries) is Some
    &&& s.ports[dest as int].active
    &&& s.ports[reply as int].active
}

/// The destination consumed and the header written: the result, the state
/// after, and the header's bits, remote and local fields.
pub open spec fn finish_header(s: SState, space_id: u32, bits: u32, rt: u32, dt: u32, dest: u32, reply_var: u32, reply_name: u32)
    -> (i32, SState, u32, u32, u32)
{
    let payload = s.ports[dest as int].payload;
    let (dn, s1) = dest_phase(s, space_id, dt, dest, reply_var);
    let s2 = if reply_var != 0 && reply_var != IO_DEAD { srel(s1, reply_var) } else { s1 };
    let (lt, local) = local_of(s2.ports[dest as int].protected_payload, dt, payload, dn);
    (MACH_MSG_SUCCESS, s2, out_bits(bits, rt, lt), reply_name, local)
}

/// `ipc_kmsg_copyout_header`: the result, the space afterwards, and the
/// header's bits, remote (reply) and local (destination) fields after the
/// copy-out (unchanged on failure).
pub open spec fn copyout_header_spec(s: SState, active: bool, space_id: u32, sizes: Seq<u32>, fresh: u32,
    bits: u32, dest: u32, reply: u32, notify: u32) -> (i32, SState, u32, u32, u32)
{
    let dt = bits & 0xff;
    let rt = (bits & 0xff00) >> 8u32;
    let pb = bits & 0xffff;
    let payload = s.ports[dest as int].payload;
    if notify == MACH_PORT_NAME_NULL && pb == 0x11 && s.ports[dest as int].active {
        let (dn, s1) = copyout_dest_spec(s, space_id, dest, MACH_MSG_TYPE_PORT_SEND);
        let (lt, local) = local_of(s1.ports[dest as int].protected_payload, MACH_MSG_TYPE_PORT_SEND, payload, dn);
        (MACH_MSG_SUCCESS, s1, out_bits(bits, 0, lt), MACH_PORT_NAME_NULL, local)
    } else if notify == MACH_PORT_NAME_NULL && pb == 0x1211 && fast_request_taken(s, active, dest, reply) {
        let i = first_free(s.entries)->0;
        let e = s.entries[i];
        let s1 = SState {
            entries: s.entries.update(i, ipc_entry {
                ie_bits: e.ie_bits | (MACH_PORT_TYPE_SEND_ONCE | 1),
                ie_object: reply,
                ie_request: 0,
                ..e
            }),
            ..s
        };
        let (dn, s2) = copyout_dest_spec(s1, space_id, dest, MACH_MSG_TYPE_PORT_SEND);
        let (lt, local) = local_of(s2.ports[dest as int].protected_payload, MACH_MSG_TYPE_PORT_SEND, payload, dn);
        (MACH_MSG_SUCCESS, s2, out_bits(bits, MACH_MSG_TYPE_PORT_SEND_ONCE, lt), e.ie_name, local)
    } else if notify == MACH_PORT_NAME_NULL && pb == 0x12 && s.ports[dest as int].active {
        let (dn, s1) = copyout_dest_spec(s, space_id, dest, MACH_MSG_TYPE_PORT_SEND_ONCE);
        let (lt, local) = local_of(s1.ports[dest as int].protected_payload, MACH_MSG_TYPE_PORT_SEND_ONCE, payload, dn);
        (MACH_MSG_SUCCESS, s1, out_bits(bits, 0, lt), MACH_PORT_NAME_NULL, local)
    } else if reply != 0 && reply != IO_DEAD {
        match reply_phase(s, active, space_id, sizes, fresh, rt, reply, notify) {
            Placement::Place { idx, np, s: s1 } =>
                finish_header(place_reply(s1, space_id, rt, reply, idx, np), space_id, bits, rt, dt, dest, reply,
                    s1.entries[idx].ie_name),
            Placement::Dead { s: s1 } => finish_header(s1, space_id, bits, rt, dt, dest, IO_DEAD, MACH_PORT_NAME_DEAD),
            Placement::Fail { code, s: s1 } => (code, s1, bits, dest, reply),
            Placement::Grow { s: s1 } => (MACH_RCV_HEADER_ERROR | MACH_MSG_IPC_KERNEL, s1, bits, dest, reply),
        }
    } else if !active {
        (MACH_RCV_HEADER_ERROR | MACH_MSG_IPC_SPACE, s, bits, dest, reply)
    } else if bad_notify(s, notify) {
        (MACH_RCV_INVALID_NOTIFY, s, bits, dest, reply)
    } else {
        finish_header(s, space_id, bits, rt, dt, dest, reply, if reply == 0 { MACH_PORT_NAME_NULL } else { MACH_PORT_NAME_DEAD })
    }
}

/// `ipc_kmsg_copyout_header` does not panic: the message holds its rights
/// (a reference and the right itself for the destination and the reply),
/// the space is consistent, and the counts have room.
pub open spec fn copyout_header_ok(space: ipc_space, ports: Seq<PortModel>, acts: Seq<IpcAction>, sizes: Seq<u32>, fresh: u32,
    bits: u32, dest: u32, reply: u32, notify: u32) -> bool
{
    let s = SState { entries: space.is_entries@, ports, acts };
    let active = space.is_active;
    let space_id = space.is_id;
    let dt = bits & 0xff;
    let rt = (bits & 0xff00) >> 8u32;
    let pb = bits & 0xffff;
    &&& 0 < dest < ports.len()
    &&& ports[dest as int].references > 0
    &&& reply != 0 && reply != IO_DEAD ==> 0 < reply < ports.len()
    &&& names_unique(space)
    &&& if notify == MACH_PORT_NAME_NULL && pb == 0x11 && ports[dest as int].active {
        dest_ok(ports, dest, MACH_MSG_TYPE_PORT_SEND)
    } else if notify == MACH_PORT_NAME_NULL && pb == 0x1211 && fast_request_taken(s, active, dest, reply) {
        &&& dest_ok(ports, dest, MACH_MSG_TYPE_PORT_SEND)
        &&& free_ok(space.is_entries@)
        &&& ports[reply as int].sorights > 0
    } else if notify == MACH_PORT_NAME_NULL && pb == 0x12 && ports[dest as int].active {
        dest_ok(ports, dest, MACH_MSG_TYPE_PORT_SEND_ONCE)
    } else if reply != 0 && reply != IO_DEAD {
        &&& active ==> reply_ok(space, ports, sizes, fresh, reply, notify)
        &&& active ==> rt == MACH_MSG_TYPE_PORT_SEND || rt == MACH_MSG_TYPE_PORT_SEND_ONCE
        &&& match reply_phase(s, active, space_id, sizes, fresh, rt, reply, notify) {
            Placement::Place { idx, np, s: s1 } => {
                &&& place_room(s1, rt, reply, idx)
                &&& tail_ok(place_reply(s1, space_id, rt, reply, idx, np), space_id, dt, dest, reply)
            },
            Placement::Dead { s: s1 } => tail_ok(s1, space_id, dt, dest, IO_DEAD),
            _ => true,
        }
    } else {
        active && !bad_notify(s, notify) ==> tail_ok(s, space_id, dt, dest, reply)
    }
}

/// A header with no reply and no notify name, whose destination the
/// message holds a right to, can always be copied out into a space whose
/// names are unique: what `ipc_kmsg_copyout_header` relies on then follows.
pub proof fn lemma_copyout_header_ok_no_reply(space: ipc_space, ports: Seq<PortModel>, acts: Seq<IpcAction>,
    sizes: Seq<u32>, fresh: u32, bits: u32, dest: u32)
    requires
        names_unique(space),
        (bits & 0xff00) >> 8u32 == 0,
        0 < dest < ports.len(),
        ports[dest as int].references > 0,
        ports[dest as int].active ==> dest_ok(ports, dest, bits & 0xff),
    ensures
        copyout_header_ok(space, ports, acts, sizes, fresh, bits, dest, 0, MACH_PORT_NAME_NULL),
{
    lemma_header_bits(bits, 0, 0);
}

/// How header bits are read and written: the remote type in the low byte,
/// the local type in the next; the circular bit is outside both; the port
/// bits of the three common cases.
pub proof fn lemma_header_bits(bits: u32, r: u32, l: u32)
    by (bit_vector)
    ensures
        r < 256 && l < 256 ==> ((bits & !0xffffu32) | (r | (l << 8u32))) & 0xffu32 == r,
        r < 256 && l < 256 ==> (((bits & !0xffffu32) | (r | (l << 8u32))) & 0xff00u32) >> 8u32 == l,
        (bits & !0x4000_0000u32) & 0xffu32 == bits & 0xffu32,
        ((bits & !0x4000_0000u32) & 0xff00u32) >> 8u32 == (bits & 0xff00u32) >> 8u32,
        bits & 0xffu32 < 256,
        (bits & 0xff00u32) >> 8u32 < 256,
        (bits & 0xff00u32) >> 8u32 == 0 ==> bits & 0xffffu32 != 0x1211u32,
        bits & 0xffffu32 == 0x11u32 ==> bits & 0xffu32 == 0x11u32,
        bits & 0xffffu32 == 0x12u32 ==> bits & 0xffu32 == 0x12u32,
        bits & 0xffffu32 == 0x1211u32 ==> bits & 0xffu32 == 0x11u32,
        17u32 | (0u32 << 8u32) == 0x11u32,
        17u32 | (18u32 << 8u32) == 0x1211u32,
        18u32 | (0u32 << 8u32) == 0x12u32,
        0x1000_400bi32 | 0x0000_2000i32 != 0,
        0x1000_400bi32 | 0x0000_0800i32 != 0,
{
}

/// The port bits of the three common cases.
proof fn lemma_common_bits()
    ensures
        17u32 | (0u32 << 8u32) == 0x11u32,
        17u32 | (18u32 << 8u32) == 0x1211u32,
        18u32 | (0u32 << 8u32) == 0x12u32,
{
    lemma_header_bits(0, 0, 0);
}

fn finish_exec(
    msg: &mut mach_msg_header_t,
    space: &ipc_space,
    ports: &mut Vec<ipc_port>,
    acts: &mut Vec<IpcAction>,
    mbits: u32,
    rt: u32,
    dt: u32,
    dest: u32,
    reply_var: u32,
    reply_name: mach_port_name_t,
) -> (mr: mach_msg_return_t)
    requires
        tail_ok(sst(*space, *old(ports), *old(acts)), space.is_id, dt, dest, reply_var),
        rt < 256,
        dt < 256,
    ensures
        (mr, sst(*space, *final(ports), *final(acts)), final(msg).msgh_bits, final(msg).msgh_remote_port, final(msg).msgh_local_port)
            == finish_header(sst(*space, *old(ports), *old(acts)), space.is_id, mbits, rt, dt, dest, reply_var, reply_name),
        final(msg).msgh_size == old(msg).msgh_size,
        final(msg).msgh_seqno == old(msg).msgh_seqno,
        final(msg).msgh_id == old(msg).msgh_id,
        final(ports).len() == old(ports).len(),
{
    let ghost s0 = sst(*space, *ports, *acts);
    let payload = ports[dest as usize].ip_payload;
    let dn = dest_phase_exec(space, ports, acts, dt, dest, reply_var);
    if reply_var != 0 && reply_var != IO_DEAD {
        let ghost s1 = sst(*space, *ports, *acts);
        port_release(ports, reply_var, acts);
        assert(sst(*space, *ports, *acts) == srel(s1, reply_var));
    }
    let pp = ports[dest as usize].ip_protected_payload;
    assert(pp == sst(*space, *ports, *acts).ports[dest as int].protected_payload);
    if !pp {
        msg.msgh_bits = MACH_MSGH_BITS_OTHER(mbits) | MACH_MSGH_BITS(rt, dt);
        msg.msgh_local_port = dn;
    } else {
        msg.msgh_bits = MACH_MSGH_BITS_OTHER(mbits) | MACH_MSGH_BITS(rt, MACH_MSG_TYPE_PROTECTED_PAYLOAD);
        msg.msgh_local_port = payload;
    }
    msg.msgh_remote_port = reply_name;
    MACH_MSG_SUCCESS
}

/// `ipc_kmsg_copyout_header`: copy the header of a message received into
/// `space` out of the kernel.  The destination's right is consumed (its
/// field becomes the name the receiver holds the port by, or the port's
/// payload), the reply right is given a name in the space (registered for
/// a dead-name notification to the port of `notify` when that names a
/// receive right), and the header's bits are turned around.  `sizes` is
/// the table of dead-name table sizes; `fresh` is the name the space's
/// radix tree hands out should a new entry be needed.
pub fn ipc_kmsg_copyout_header(
    msg: &mut mach_msg_header_t,
    space: &mut ipc_space,
    ports: &mut Vec<ipc_port>,
    acts: &mut Vec<IpcAction>,
    sizes: &Vec<u32>,
    fresh: mach_port_name_t,
    notify: mach_port_name_t,
) -> (mr: mach_msg_return_t)
    requires
        copyout_header_ok(*old(space), pv(*old(ports)), old(acts)@, sizes@, fresh, old(msg).msgh_bits,
            old(msg).msgh_remote_port, old(msg).msgh_local_port, notify),
    ensures
        (mr, sst(*final(space), *final(ports), *final(acts)), final(msg).msgh_bits, final(msg).msgh_remote_port,
            final(msg).msgh_local_port)
            == copyout_header_spec(sst(*old(space), *old(ports), *old(acts)), old(space).is_active, old(space).is_id, sizes@,
                fresh, old(msg).msgh_bits, old(msg).msgh_remote_port, old(msg).msgh_local_port, notify),
        final(msg).msgh_size == old(msg).msgh_size,
        final(msg).msgh_seqno == old(msg).msgh_seqno,
        final(msg).msgh_id == old(msg).msgh_id,
        final(space).is_active == old(space).is_active,
        final(space).is_id == old(space).is_id,
{
    let ghost s0 = sst(*space, *ports, *acts);
    let mbits = msg.msgh_bits;
    let dest = msg.msgh_remote_port;
    let reply = msg.msgh_local_port;
    let dt = mach_msgh_bits_remote(mbits);
    let rt = MACH_MSGH_BITS_LOCAL(mbits);
    proof {
        lemma_msgh_bits(mbits, 0, 0);
        lemma_common_bits();
    }
    if notify == MACH_PORT_NAME_NULL {
        let pb = MACH_MSGH_BITS_PORTS(mbits);
        if pb == MACH_MSGH_BITS(MACH_MSG_TYPE_PORT_SEND, 0) && ports[dest as usize].ip_active {
            let payload = ports[dest as usize].ip_payload;
            let dn = ipc_object_copyout_dest(space, ports, acts, dest, MACH_MSG_TYPE_PORT_SEND);
            let pp = ports[dest as usize].ip_protected_payload;
            assert(pp == sst(*space, *ports, *acts).ports[dest as int].protected_payload);
            let lt = if pp { MACH_MSG_TYPE_PROTECTED_PAYLOAD } else { MACH_MSG_TYPE_PORT_SEND };
            msg.msgh_bits = MACH_MSGH_BITS_OTHER(mbits) | MACH_MSGH_BITS(0, lt);
            msg.msgh_local_port = if pp { payload } else { dn };
            msg.msgh_remote_port = MACH_PORT_NAME_NULL;
            return MACH_MSG_SUCCESS;
        }
        if pb == MACH_MSGH_BITS(MACH_MSG_TYPE_PORT_SEND, MACH_MSG_TYPE_PORT_SEND_ONCE) && reply != 0 && reply != IO_DEAD
            && space.is_active && ports[dest as usize].ip_active && ports[reply as usize].ip_active {
            let ghost e0 = space.is_entries@;
            let (kr, reply_name, i) = ipc_entry_get(space);
            if kr == KERN_SUCCESS {
                proof {
                    crate::ipc_entry::lemma_first_free_is(e0);
                }
                let e = get_entry(space, i);
                set_entry(space, i, ipc_entry { ie_bits: e.ie_bits | (MACH_PORT_TYPE_SEND_ONCE | 1), ie_object: reply, ..e });
                let payload = ports[dest as usize].ip_payload;
                let dn = ipc_object_copyout_dest(space, ports, acts, dest, MACH_MSG_TYPE_PORT_SEND);
                let pp = ports[dest as usize].ip_protected_payload;
                assert(pp == sst(*space, *ports, *acts).ports[dest as int].protected_payload);
                let lt = if pp { MACH_MSG_TYPE_PROTECTED_PAYLOAD } else { MACH_MSG_TYPE_PORT_SEND };
                msg.msgh_bits = MACH_MSGH_BITS_OTHER(mbits) | MACH_MSGH_BITS(MACH_MSG_TYPE_PORT_SEND_ONCE, lt);
                msg.msgh_local_port = if pp { payload } else { dn };
                msg.msgh_remote_port = reply_name;
                return MACH_MSG_SUCCESS;
            }
        }
        if pb == MACH_MSGH_BITS(MACH_MSG_TYPE_PORT_SEND_ONCE, 0) && ports[dest as usize].ip_active {
            let payload = ports[dest as usize].ip_payload;
            let dn = ipc_object_copyout_dest(space, ports, acts, dest, MACH_MSG_TYPE_PORT_SEND_ONCE);
            let pp = ports[dest as usize].ip_protected_payload;
            assert(pp == sst(*space, *ports, *acts).ports[dest as int].protected_payload);
            let lt = if pp { MACH_MSG_TYPE_PROTECTED_PAYLOAD } else { MACH_MSG_TYPE_PORT_SEND_ONCE };
            msg.msgh_bits = MACH_MSGH_BITS_OTHER(mbits) | MACH_MSGH_BITS(0, lt);
            msg.msgh_local_port = if pp { payload } else { dn };
            msg.msgh_remote_port = MACH_PORT_NAME_NULL;
            return MACH_MSG_SUCCESS;
        }
    }
    if reply != 0 && reply != IO_DEAD {
        if !space.is_active {
            return MACH_RCV_HEADER_ERROR | MACH_MSG_IPC_SPACE;
        }
        let (tag, code, idx, np) = reply_phase_exec(space, ports, acts, sizes, fresh, rt, reply, notify);
        if tag == 2 {
            return code;
        }
        if tag == 0 {
            let reply_name = get_entry(space, idx).ie_name;
            place_reply_exec(space, ports, acts, rt, reply, idx, np);
            return finish_exec(msg, space, ports, acts, mbits, rt, dt, dest, reply, reply_name);
        }
        return finish_exec(msg, space, ports, acts, mbits, rt, dt, dest, IO_DEAD, MACH_PORT_NAME_DEAD);
    }
    if !space.is_active {
        return MACH_RCV_HEADER_ERROR | MACH_MSG_IPC_SPACE;
    }
    if notify != MACH_PORT_NAME_NULL {
        match ipc_entry_lookup(space, notify) {
            None => {
                return MACH_RCV_INVALID_NOTIFY;
            },
            Some(i) => {
                if get_entry(space, i).ie_bits & MACH_PORT_TYPE_RECEIVE == 0 {
                    return MACH_RCV_INVALID_NOTIFY;
                }
            },
        }
    }
    let reply_name = if reply == 0 { MACH_PORT_NAME_NULL } else { MACH_PORT_NAME_DEAD };
    finish_exec(msg, space, ports, acts, mbits, rt, dt, dest, reply, reply_name)
}

/// Law: a header copied out successfully names its destination with the
/// right the message carried to it.  Its local type (`MACH_MSGH_BITS_LOCAL`)
/// is the remote type the message was sent with (`MACH_MSGH_BITS_REMOTE`),
/// unless the destination delivers its protected payload in place of a
/// name, in which case it is `MACH_MSG_TYPE_PROTECTED_PAYLOAD`.
pub proof fn law_copyout_local_type_is_destination_type(s: SState, active: bool, space_id: u32, sizes: Seq<u32>,
    fresh: u32, bits: u32, dest: u32, reply: u32, notify: u32)
    ensures ({
        let (mr, s1, out, remote, local) = copyout_header_spec(s, active, space_id, sizes, fresh, bits, dest, reply, notify);
        mr == MACH_MSG_SUCCESS ==> {
            ||| (out & 0xff00u32) >> 8u32 == bits & 0xffu32
            ||| (out & 0xff00u32) >> 8u32 == MACH_MSG_TYPE_PROTECTED_PAYLOAD
        }
    }),
{
    let dt = bits & 0xff;
    let rt = (bits & 0xff00) >> 8u32;
    lemma_header_bits(bits, 0, 17);
    lemma_header_bits(bits, 0, 18);
    lemma_header_bits(bits, 0, 23);
    lemma_header_bits(bits, 18, 17);
    lemma_header_bits(bits, 18, 23);
    lemma_header_bits(bits, rt, dt);
    lemma_header_bits(bits, rt, 23);
}

} // verus!
