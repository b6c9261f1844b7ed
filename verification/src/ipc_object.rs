//! Moving capabilities out of messages into a space: finding the entry
//! that already names a port, allocating one, and consuming the right a
//! message's destination carried.

use vstd::prelude::*;
use crate::ipc_entry::{
    alloc_name_spec, alloc_spec, first_free, is_first_free, free_ok, ipc_entry_alloc, ipc_entry_alloc_name,
    ipc_entry_dealloc, keys_unique, name_used, name_valid,
};
use crate::ipc_kmsg::{
    at, cin, cin_ok, copyin_at, dealloc_if_none, entry_dealloc_if_none, lemma_put, port_release, put, sact, srel, sst, SState,
};
use crate::ipc_right::{
    entry_ok, freed, get_entry, get_port, ie_bits_type, ie_urefs, in_use, ipc_entry, ipc_entry_lookup, ipc_port,
    ipc_right_check, ipc_right_copyout, ipc_right_inuse, ipc_space, lookup_in, lookup_spec, names_unique, pv, rstate, set_entry, set_port,
    space_ok, st_check, st_copyout, valid_type, DnRequest, IpcAction, PortModel, PortScalars, IO_DEAD,
    ie_bits_urefs, lemma_entry_bits, ipc_right_lookup_write,
};
use crate::mach_types::{
    kern_return_t, mach_msg_type_name_t, mach_port_name_t, KERN_INVALID_CAPABILITY, KERN_INVALID_TASK,
    KERN_INVALID_NAME, KERN_INVALID_VALUE, mach_msg_return_t, MACH_MSG_IPC_SPACE, MACH_MSG_SUCCESS,
    MACH_MSG_TYPE_PORT_RECEIVE, MACH_PORT_NAME_DEAD,
    KERN_NAME_EXISTS, KERN_RIGHT_EXISTS, KERN_SUCCESS, MACH_MSG_TYPE_MOVE_RECEIVE, MACH_MSG_TYPE_MOVE_SEND,
    MACH_MSG_TYPE_PORT_SEND, MACH_MSG_TYPE_PORT_SEND_ONCE, MACH_PORT_NAME_NULL, MACH_PORT_TYPE_NONE,
    MACH_PORT_TYPE_PORT_RIGHTS, MACH_PORT_TYPE_RECEIVE, MACH_PORT_TYPE_SEND, MACH_PORT_UREFS_MAX,
    IE_BITS_MAREQUEST, IE_BITS_RIGHT_MASK, IE_BITS_TYPE_MASK, MACH_PORT_TYPE_PORT_SET, MACH_PORT_TYPE_SEND_RECEIVE,
    mach_port_type_t, mach_port_urefs_t, MACH_PORT_TYPE_ALL_RIGHTS, MACH_PORT_TYPE_DEAD_NAME, mach_port_right_t,
    KERN_INVALID_RIGHT, MACH_MSG_TYPE_MAKE_SEND_ONCE, MACH_PORT_TYPE,
};

verus! {

// ─── The notify port of a message ────────────────────────────────

/// `ipc_port_lookup_notify`: the port whose receive right the space names
/// `name`, with one more send-once right to it and a reference for that
/// right; 0 when `name` names no receive right.
pub open spec fn lookup_notify_spec(entries: Seq<ipc_entry>, ports: Seq<PortModel>, name: u32) -> (u32, Seq<PortModel>) {
    match lookup_in(entries, name) {
        None => (0, ports),
        Some(i) => if entries[i].ie_bits & MACH_PORT_TYPE_RECEIVE == 0 {
            (0, ports)
        } else {
            let p = entries[i].ie_object;
            let q = ports[p as int];
            (p, ports.update(p as int, PortModel {
                references: (q.references + 1) as u32,
                sorights: (q.sorights + 1) as u32,
                ..q
            }))
        },
    }
}

/// The notify port, if `name` names one, has room for another send-once
/// right and its reference.
pub open spec fn notify_room(entries: Seq<ipc_entry>, ports: Seq<PortModel>, name: u32) -> bool {
    match lookup_in(entries, name) {
        None => true,
        Some(i) => entries[i].ie_bits & MACH_PORT_TYPE_RECEIVE != 0 ==> {
            let q = ports[entries[i].ie_object as int];
            q.references < u32::MAX && q.sorights < u32::MAX
        },
    }
}

pub proof fn lemma_receive_is_port_right(bits: u32)
    by (bit_vector)
    ensures
        bits & 0x0002_0000u32 != 0 ==> bits & 0x0007_0000u32 != 0,
        bits & 0x0001_0000u32 != 0 ==> bits & 0x0007_0000u32 != 0,
        bits & 0x0004_0000u32 != 0 ==> bits & 0x0007_0000u32 != 0,
        bits & 0x001f_0000u32 == 0 ==> bits & 0x0007_0000u32 == 0 && bits & 0x0001_0000u32 == 0
            && bits & 0x0002_0000u32 == 0,
        0u32 & 0x001f_0000u32 == 0,
        (bits & 0x001f_0000u32 == 0x0002_0000u32 || bits & 0x001f_0000u32 == 0x0003_0000u32)
            ==> bits & 0x0002_0000u32 != 0,
{
}

/// `ipc_port_lookup_notify`.
pub fn ipc_port_lookup_notify(space: &ipc_space, ports: &mut Vec<ipc_port>, name: mach_port_name_t) -> (p: u32)
    requires
        space.is_active,
        space_ok(*space, pv(*old(ports))),
        notify_room(space.is_entries@, pv(*old(ports)), name),
    ensures
        final(ports).len() == old(ports).len(),
        (p, pv(*final(ports))) == lookup_notify_spec(space.is_entries@, pv(*old(ports)), name),
{
    match ipc_entry_lookup(space, name) {
        None => 0,
        Some(i) => {
            let e = get_entry(space, i);
            if e.ie_bits & MACH_PORT_TYPE_RECEIVE == 0 {
                return 0;
            }
            proof { lemma_receive_is_port_right(e.ie_bits); }
            let p = e.ie_object;
            let m = get_port(ports, p);
            set_port(ports, p, PortScalars { references: m.references + 1, sorights: m.sorights + 1, ..m });
            p
        },
    }
}

// ─── The entry already naming a port ─────────────────────────────

/// The entry is in use and holds send rights to port `p`.
pub open spec fn sends_to(e: ipc_entry, p: u32) -> bool {
    in_use(e) && e.ie_bits & MACH_PORT_TYPE_SEND != 0 && e.ie_object == p
}

/// At most one entry of the space holds send rights to a given port (the
/// space's reverse map holds that entry).
pub open spec fn sends_unique(entries: Seq<ipc_entry>) -> bool {
    forall|i: int, j: int| #![trigger entries[i], entries[j]]
        0 <= i < j < entries.len() && in_use(entries[i]) && in_use(entries[j])
            && entries[i].ie_bits & MACH_PORT_TYPE_SEND != 0 && entries[j].ie_bits & MACH_PORT_TYPE_SEND != 0
            ==> entries[i].ie_object != entries[j].ie_object
}

/// Every live port whose receive right the space holds is named by an
/// entry of the space holding that right.
pub open spec fn receivers_ok(space: ipc_space, ports: Seq<PortModel>) -> bool {
    forall|p: int| 0 < p < ports.len() && #[trigger] ports[p].active && ports[p].receiver == space.is_id ==> {
        &&& lookup_spec(space, ports[p].receiver_name) is Some
        &&& space.is_entries[lookup_spec(space, ports[p].receiver_name)->0].ie_bits & MACH_PORT_TYPE_RECEIVE != 0
        &&& space.is_entries[lookup_spec(space, ports[p].receiver_name)->0].ie_object == p
    }
}

/// `ipc_right_reverse`: the entry that names a live port, if any: the
/// receive right's entry when the space holds it, else the entry holding
/// send rights to it.
pub open spec fn reverse_spec(entries: Seq<ipc_entry>, ports: Seq<PortModel>, space_id: u32, p: u32) -> Option<int> {
    let q = ports[p as int];
    if !q.active {
        None
    } else if q.receiver == space_id {
        lookup_in(entries, q.receiver_name)
    } else if exists|i: int| 0 <= i < entries.len() && sends_to(entries[i], p) {
        Some(choose|i: int| 0 <= i < entries.len() && sends_to(entries[i], p))
    } else {
        None
    }
}

/// `ipc_right_reverse`: the name and position of the entry naming port `p`.
pub fn ipc_right_reverse(space: &ipc_space, ports: &Vec<ipc_port>, p: u32) -> (r: Option<(mach_port_name_t, usize)>)
    requires
        space.is_active,
        0 < p < ports.len(),
        names_unique(*space),
        sends_unique(space.is_entries@),
        receivers_ok(*space, pv(*ports)),
    ensures
        match r {
            None => reverse_spec(space.is_entries@, pv(*ports), space.is_id, p) is None,
            Some((n, i)) => {
                &&& reverse_spec(space.is_entries@, pv(*ports), space.is_id, p) == Some(i as int)
                &&& i < space.is_entries.len()
                &&& n == space.is_entries[i as int].ie_name
            },
        },
{
    let ghost pm = pv(*ports);
    if !ports[p as usize].ip_active {
        return None;
    }
    if ports[p as usize].ip_receiver == space.is_id {
        let name = ports[p as usize].ip_receiver_name;
        assert(pm[p as int].active);
        match ipc_entry_lookup(space, name) {
            Some(i) => {
                return Some((name, i));
            },
            None => {
                return None;
            },
        }
    }
    let mut i: usize = 0;
    while i < space.is_entries.len()
        invariant
            i <= space.is_entries.len(),
            0 < p < ports.len(),
            pv(*ports)[p as int].active,
            pv(*ports)[p as int].receiver != space.is_id,
            sends_unique(space.is_entries@),
            forall|j: int| 0 <= j < i ==> !sends_to(#[trigger] space.is_entries[j], p),
        decreases space.is_entries.len() - i,
    {
        let e = space.is_entries[i];
        if e.ie_object == p && e.ie_bits & MACH_PORT_TYPE_SEND != 0
            && ie_bits_type(e.ie_bits) != MACH_PORT_TYPE_NONE {
            proof {
                let ents = space.is_entries@;
                assert(sends_to(ents[i as int], p));
                let k = choose|k: int| 0 <= k < ents.len() && sends_to(ents[k], p);
                if k != i as int {
                    if k < i as int {
                        assert(ents[k].ie_object != ents[i as int].ie_object);
                    } else {
                        assert(ents[i as int].ie_object != ents[k].ie_object);
                    }
                }
            }
            return Some((e.ie_name, i));
        }
        i = i + 1;
    }
    None
}

// ─── The destination's right ─────────────────────────────────────

/// `ipc_object_copyout_dest`: the name the space knows the destination
/// port by (null unless it holds the receive right), once the message's
/// send or send-once right is consumed.  A send-once right whose receive
/// right left the space turns into a send-once notification.
pub open spec fn copyout_dest_spec(s: SState, space_id: u32, p: u32, msgt: u32) -> (u32, SState) {
    let q = s.ports[p as int];
    let here = q.receiver == space_id;
    let name = if here { q.receiver_name } else { MACH_PORT_NAME_NULL };
    if msgt == MACH_MSG_TYPE_PORT_SEND {
        let sr = (q.srights - 1) as u32;
        let ns = if sr == 0 { q.nsrequest } else { 0 };
        let q1 = PortModel {
            references: (q.references - 1) as u32,
            srights: sr,
            nsrequest: if ns != 0 { 0 } else { q.nsrequest },
            ..q
        };
        let acts = if ns != 0 {
            s.acts.push(IpcAction::NotifyNoSenders { notify: ns, mscount: q.mscount })
        } else {
            s.acts
        };
        (name, SState { ports: s.ports.update(p as int, q1), acts, ..s })
    } else if here {
        (name, SState { ports: s.ports.update(p as int, PortModel {
            references: (q.references - 1) as u32,
            sorights: (q.sorights - 1) as u32,
            ..q
        }), ..s })
    } else {
        (MACH_PORT_NAME_NULL, SState { acts: s.acts.push(IpcAction::NotifySendOnce { port: p }), ..s })
    }
}

/// What consuming the destination's right needs: a live port holding the
/// right (and the reference it comes with).
pub open spec fn dest_ok(ports: Seq<PortModel>, p: u32, msgt: u32) -> bool {
    &&& 0 < p < ports.len()
    &&& ports[p as int].active
    &&& ports[p as int].references > 0
    &&& msgt == MACH_MSG_TYPE_PORT_SEND || msgt == MACH_MSG_TYPE_PORT_SEND_ONCE
    &&& msgt == MACH_MSG_TYPE_PORT_SEND ==> ports[p as int].srights > 0
    &&& msgt == MACH_MSG_TYPE_PORT_SEND_ONCE ==> ports[p as int].sorights > 0
}

/// `ipc_object_copyout_dest`.
pub fn ipc_object_copyout_dest(
    space: &ipc_space,
    ports: &mut Vec<ipc_port>,
    acts: &mut Vec<IpcAction>,
    p: u32,
    msgt_name: mach_msg_type_name_t,
) -> (name: mach_port_name_t)
    requires
        dest_ok(pv(*old(ports)), p, msgt_name),
    ensures
        final(ports).len() == old(ports).len(),
        (name, sst(*space, *final(ports), *final(acts)))
            == copyout_dest_spec(sst(*space, *old(ports), *old(acts)), space.is_id, p, msgt_name),
{
    let ghost s0 = sst(*space, *ports, *acts);
    let m = get_port(ports, p);
    let here = m.receiver == space.is_id;
    let name = if here { m.receiver_name } else { MACH_PORT_NAME_NULL };
    if msgt_name == MACH_MSG_TYPE_PORT_SEND {
        let sr = m.srights - 1;
        let ns = if sr == 0 { m.nsrequest } else { 0 };
        set_port(ports, p, PortScalars {
            references: m.references - 1,
            srights: sr,
            nsrequest: if ns != 0 { 0 } else { m.nsrequest },
            ..m
        });
        if ns != 0 {
            acts.push(IpcAction::NotifyNoSenders { notify: ns, mscount: m.mscount });
        }
        assert(sst(*space, *ports, *acts) =~= copyout_dest_spec(s0, space.is_id, p, msgt_name).1);
        name
    } else if here {
        set_port(ports, p, PortScalars { references: m.references - 1, sorights: m.sorights - 1, ..m });
        assert(sst(*space, *ports, *acts) =~= copyout_dest_spec(s0, space.is_id, p, msgt_name).1);
        name
    } else {
        acts.push(IpcAction::NotifySendOnce { port: p });
        assert(sst(*space, *ports, *acts) =~= copyout_dest_spec(s0, space.is_id, p, msgt_name).1);
        MACH_PORT_NAME_NULL
    }
}

// ─── Rights into a space ─────────────────────────────────────────

/// The entries only gained free entries: entries in use stay as they
/// were, free ones stay free, and new ones are free.
pub open spec fn grows_free(o: Seq<ipc_entry>, n: Seq<ipc_entry>) -> bool {
    &&& n.len() >= o.len()
    &&& forall|j: int| 0 <= j < o.len() && in_use(o[j]) ==> #[trigger] n[j] == o[j]
    &&& forall|j: int| 0 <= j < o.len() && !in_use(o[j]) ==> !in_use(#[trigger] n[j])
    &&& forall|j: int| o.len() <= j < n.len() ==> !in_use(#[trigger] n[j])
}

/// Gaining free entries changes no lookup, reverse lookup or consistency
/// of the space.
pub proof fn lemma_grows_free(o: ipc_space, n: ipc_space, ports: Seq<PortModel>, name: u32, p: u32)
    requires
        grows_free(o.is_entries@, n.is_entries@),
        n.is_active == o.is_active,
        n.is_id == o.is_id,
        names_unique(o),
        sends_unique(o.is_entries@),
    ensures
        names_unique(n),
        sends_unique(n.is_entries@),
        lookup_spec(n, name) == lookup_spec(o, name),
        reverse_spec(n.is_entries@, ports, n.is_id, p) == reverse_spec(o.is_entries@, ports, o.is_id, p),
        space_ok(o, ports) ==> space_ok(n, ports),
        receivers_ok(o, ports) ==> receivers_ok(n, ports),
{
    let oe = o.is_entries@;
    let ne = n.is_entries@;
    assert forall|j: int| 0 <= j < ne.len() && in_use(ne[j]) implies j < oe.len() && in_use(oe[j]) && ne[j] == oe[j] by {
        if j >= oe.len() {
            assert(!in_use(ne[j]));
        } else if !in_use(oe[j]) {
            assert(!in_use(ne[j]));
        } else {
            assert(ne[j] == oe[j]);
        }
    }
    assert(names_unique(n)) by {
        assert forall|i: int, j: int| 0 <= i < j < ne.len() && in_use(ne[i]) && in_use(ne[j])
            implies #[trigger] ne[i].ie_name != #[trigger] ne[j].ie_name by {
            assert(oe[i].ie_name != oe[j].ie_name);
        }
    }
    assert(sends_unique(ne)) by {
        assert forall|i: int, j: int| 0 <= i < j < ne.len() && in_use(ne[i]) && in_use(ne[j])
            && ne[i].ie_bits & MACH_PORT_TYPE_SEND != 0 && ne[j].ie_bits & MACH_PORT_TYPE_SEND != 0
            implies #[trigger] ne[i].ie_object != #[trigger] ne[j].ie_object by {
            assert(oe[i].ie_object != oe[j].ie_object);
        }
    }
    lemma_lookup_same(oe, ne, name);
    let q = ports[p as int];
    lemma_lookup_same(oe, ne, q.receiver_name);
    if exists|i: int| 0 <= i < ne.len() && sends_to(ne[i], p) {
        let kn = choose|i: int| 0 <= i < ne.len() && sends_to(ne[i], p);
        assert(sends_to(oe[kn], p));
        let ko = choose|i: int| 0 <= i < oe.len() && sends_to(oe[i], p);
        assert(sends_to(ne[ko], p));
        if kn < ko {
            assert(ne[kn].ie_object != ne[ko].ie_object);
        } else if ko < kn {
            assert(ne[ko].ie_object != ne[kn].ie_object);
        }
    } else {
        assert forall|i: int| 0 <= i < oe.len() implies !sends_to(oe[i], p) by {
            if sends_to(oe[i], p) {
                assert(sends_to(ne[i], p));
            }
        }
    }
    if space_ok(o, ports) {
        assert forall|i: int| 0 <= i < ne.len() && #[trigger] in_use(ne[i]) implies {
            let e = ne[i];
            &&& e.ie_name != MACH_PORT_NAME_NULL
            &&& valid_type(crate::ipc_right::ie_type(e.ie_bits))
            &&& entry_ok(e, ports)
            &&& (e.ie_bits & MACH_PORT_TYPE_RECEIVE != 0 ==> {
                let q = ports[e.ie_object as int];
                q.active && q.receiver_name == e.ie_name && q.receiver == n.is_id
            })
        } by {
            assert(in_use(oe[i]));
        }
    }
    if receivers_ok(o, ports) {
        assert forall|pp: int| 0 < pp < ports.len() && #[trigger] ports[pp].active && ports[pp].receiver == n.is_id implies {
            &&& lookup_spec(n, ports[pp].receiver_name) is Some
            &&& n.is_entries[lookup_spec(n, ports[pp].receiver_name)->0].ie_bits & MACH_PORT_TYPE_RECEIVE != 0
            &&& n.is_entries[lookup_spec(n, ports[pp].receiver_name)->0].ie_object == pp
        } by {
            lemma_lookup_same(oe, ne, ports[pp].receiver_name);
            let k = lookup_spec(o, ports[pp].receiver_name)->0;
            assert(in_use(oe[k]));
        }
    }
}

proof fn lemma_lookup_same(oe: Seq<ipc_entry>, ne: Seq<ipc_entry>, name: u32)
    requires
        grows_free(oe, ne),
        forall|i: int, j: int| #![trigger oe[i], oe[j]]
            0 <= i < j < oe.len() && in_use(oe[i]) && in_use(oe[j]) ==> oe[i].ie_name != oe[j].ie_name,
        forall|j: int| 0 <= j < ne.len() && in_use(ne[j]) ==> j < oe.len() && in_use(oe[j]) && #[trigger] ne[j] == oe[j],
    ensures
        lookup_in(ne, name) == lookup_in(oe, name),
{
    if exists|i: int| 0 <= i < ne.len() && in_use(ne[i]) && ne[i].ie_name == name {
        let kn = choose|i: int| 0 <= i < ne.len() && in_use(ne[i]) && ne[i].ie_name == name;
        assert(ne[kn] == oe[kn]);
        let ko = choose|i: int| 0 <= i < oe.len() && in_use(oe[i]) && oe[i].ie_name == name;
        assert(ne[ko] == oe[ko]);
        if kn < ko {
            assert(oe[kn].ie_name != oe[ko].ie_name);
        } else if ko < kn {
            assert(oe[ko].ie_name != oe[kn].ie_name);
        }
    } else {
        assert forall|i: int| 0 <= i < oe.len() && in_use(oe[i]) implies oe[i].ie_name != name by {
            assert(ne[i] == oe[i]);
        }
    }
}

/// What `ipc_right_copyout` needs of the entry receiving a right of kind
/// `msgt` to `object`.
pub open spec fn copyout_room(e: ipc_entry, ports: Seq<PortModel>, object: u32, msgt: u32) -> bool {
    let q = ports[object as int];
    &&& msgt == MACH_MSG_TYPE_MOVE_SEND ==> {
        &&& ie_urefs(e.ie_bits) < MACH_PORT_UREFS_MAX
        &&& (e.ie_bits & MACH_PORT_TYPE_SEND != 0 ==> q.srights > 1 && q.references > 1)
        &&& (e.ie_bits & MACH_PORT_TYPE_RECEIVE != 0 ==> q.references > 1)
    }
    &&& msgt == MACH_MSG_TYPE_MOVE_RECEIVE ==> {
        &&& (e.ie_bits & MACH_PORT_TYPE_SEND != 0 ==> q.references > 1)
        &&& (q.destination != 0 ==> q.destination < ports.len()
            && (if q.destination == object { q.references > 2 } else { ports[q.destination as int].references > 0 }))
    }
}

/// The right copied out into entry `i`, with the entry's name on success.
pub open spec fn copied_out(s: SState, i: int, space_id: u32, msgt: u32, overflow: bool) -> (i32, u32, SState) {
    let (k, r) = st_copyout(at(s, i), space_id, msgt, overflow);
    (k, if k == KERN_SUCCESS { s.entries[i].ie_name } else { 0 }, put(s, i, r))
}

/// The entry naming `object` that a copy-out of kind `msgt` reuses.
pub open spec fn reuse_entry(s: SState, space_id: u32, object: u32, msgt: u32) -> Option<int> {
    if msgt != MACH_MSG_TYPE_PORT_SEND_ONCE { reverse_spec(s.entries, s.ports, space_id, object) } else { None }
}

/// `ipc_object_copyout`: put a right of kind `msgt` to the port `object`
/// into the space, under the name that already denotes the port or a newly
/// allocated one; returns the status and the name.
pub open spec fn object_copyout_spec(s: SState, active: bool, space_id: u32, object: u32, msgt: u32, overflow: bool, fresh: u32)
    -> (i32, u32, SState)
{
    if !active {
        (KERN_INVALID_TASK, 0, s)
    } else {
        match reuse_entry(s, space_id, object, msgt) {
            Some(i) => copied_out(s, i, space_id, msgt, overflow),
            None => {
                let (ents, i) = alloc_spec(s.entries, fresh);
                if !s.ports[object as int].active {
                    (KERN_INVALID_CAPABILITY, 0, SState { entries: ents.update(i, freed(ents[i])), ..s })
                } else {
                    copied_out(
                        SState { entries: ents.update(i, ipc_entry { ie_object: object, ..ents[i] }), ..s },
                        i,
                        space_id,
                        msgt,
                        overflow,
                    )
                }
            },
        }
    }
}

/// `ipc_object_copyout` does not panic.
pub open spec fn object_copyout_ok(s: SState, space_id: u32, object: u32, msgt: u32) -> bool {
    match reuse_entry(s, space_id, object, msgt) {
        Some(i) => copyout_room(s.entries[i], s.ports, object, msgt),
        None => copyout_room(ipc_entry { ie_name: 0, ie_bits: 0, ie_object: object, ie_request: 0 }, s.ports, object, msgt),
    }
}

/// The space is consistent enough to copy rights out into it.
pub open spec fn copyout_space_ok(space: ipc_space, ports: Seq<PortModel>) -> bool {
    &&& space_ok(space, ports)
    &&& receivers_ok(space, ports)
    &&& sends_unique(space.is_entries@)
    &&& free_ok(space.is_entries@)
    &&& space.is_entries.len() < usize::MAX
}

pub proof fn lemma_alloc_grows(o: Seq<ipc_entry>, fresh: u32)
    requires
        free_ok(o),
        first_free(o) is None ==> name_valid(fresh),
    ensures
        grows_free(o, alloc_spec(o, fresh).0),
        ({
            let (ents, i) = alloc_spec(o, fresh);
            &&& 0 <= i < ents.len()
            &&& !in_use(ents[i])
            &&& ents[i].ie_object == 0
            &&& ents.len() <= o.len() + 1
            &&& free_ok(ents)
        }),
{
    let (ents, i) = alloc_spec(o, fresh);
    lemma_receive_is_port_right(0);
    match first_free(o) {
        Some(k) => {
            assert(is_first_free(o, k));
        },
        None => {
            assert(!in_use(ents[i]));
        },
    }
}

/// `ipc_object_copyout`.
pub fn ipc_object_copyout(
    space: &mut ipc_space,
    ports: &mut Vec<ipc_port>,
    acts: &mut Vec<IpcAction>,
    object: u32,
    msgt_name: mach_msg_type_name_t,
    overflow: bool,
    fresh: mach_port_name_t,
) -> (r: (kern_return_t, mach_port_name_t))
    requires
        0 < object < old(ports).len(),
        MACH_MSG_TYPE_MOVE_RECEIVE <= msgt_name <= MACH_MSG_TYPE_PORT_SEND_ONCE,
        copyout_space_ok(*old(space), pv(*old(ports))),
        first_free(old(space).is_entries@) is None ==> name_valid(fresh) && !name_used(old(space).is_entries@, fresh),
        object_copyout_ok(sst(*old(space), *old(ports), *old(acts)), old(space).is_id, object, msgt_name),
    ensures
        (r.0, r.1, sst(*final(space), *final(ports), *final(acts)))
            == object_copyout_spec(sst(*old(space), *old(ports), *old(acts)), old(space).is_active, old(space).is_id,
                object, msgt_name, overflow, fresh),
        final(space).is_active == old(space).is_active,
        final(space).is_id == old(space).is_id,
        final(ports).len() == old(ports).len(),
{
    let ghost s0 = sst(*space, *ports, *acts);
    if !space.is_active {
        return (KERN_INVALID_TASK, 0);
    }
    let rev = if msgt_name != MACH_MSG_TYPE_PORT_SEND_ONCE { ipc_right_reverse(space, ports, object) } else { None };
    let idx: usize;
    let name: mach_port_name_t;
    match rev {
        Some((n, i)) => {
            proof {
                let q = pv(*ports)[object as int];
                if q.receiver == space.is_id {
                    assert(q.active);
                } else {
                    assert(sends_to(space.is_entries[i as int], object));
                }
            }
            idx = i;
            name = n;
        },
        None => {
            let ghost sp0 = *space;
            proof { lemma_alloc_grows(space.is_entries@, fresh); }
            let (_kr, n, i) = ipc_entry_alloc(space, fresh);
            if !ports[object as usize].ip_active {
                ipc_entry_dealloc(space, i);
                assert(sst(*space, *ports, *acts) =~= object_copyout_spec(s0, true, space.is_id, object, msgt_name, overflow, fresh).2);
                return (KERN_INVALID_CAPABILITY, 0);
            }
            let e = get_entry(space, i);
            set_entry(space, i, ipc_entry { ie_object: object, ..e });
            idx = i;
            name = n;
        },
    }
    let ghost s1 = sst(*space, *ports, *acts);
    let ghost sp1 = *space;
    let kr = ipc_right_copyout(space, idx, ports, acts, msgt_name, overflow, object);
    proof {
        lemma_put(sp1, *space, idx, *old(ports), *ports, *old(acts), *acts, rstate(*space, idx, *ports, *acts));
    }
    if kr == KERN_SUCCESS {
        (kr, name)
    } else {
        (kr, 0)
    }
}

/// `ipc_object_copyout_name`: put a right of kind `msgt` to the port
/// `object` into the space under the given `name`.  A port the space
/// already names otherwise gives `KERN_RIGHT_EXISTS`; a name already
/// denoting another right gives `KERN_NAME_EXISTS`.
pub open spec fn object_copyout_name_spec(s: SState, active: bool, space_id: u32, object: u32, msgt: u32, overflow: bool, name: u32)
    -> (i32, SState)
{
    if !active {
        (KERN_INVALID_TASK, s)
    } else {
        let (ents, i) = alloc_name_spec(s.entries, name);
        let s1 = SState { entries: ents, ..s };
        let dropped = SState { entries: ents.update(i, freed(ents[i])), ..s };
        match reuse_entry(s1, space_id, object, msgt) {
            Some(oi) => if name != ents[oi].ie_name {
                (KERN_RIGHT_EXISTS, if !in_use(ents[i]) { dropped } else { s1 })
            } else {
                let r = copied_out(s1, i, space_id, msgt, overflow);
                (r.0, r.2)
            },
            None => if in_use(ents[i]) {
                (KERN_NAME_EXISTS, s1)
            } else if !s.ports[object as int].active {
                (KERN_INVALID_CAPABILITY, dropped)
            } else {
                let r = copied_out(
                    SState { entries: ents.update(i, ipc_entry { ie_object: object, ..ents[i] }), ..s },
                    i,
                    space_id,
                    msgt,
                    overflow,
                );
                (r.0, r.2)
            },
        }
    }
}

proof fn lemma_alloc_name_grows(o: Seq<ipc_entry>, name: u32)
    requires
        free_ok(o),
        keys_unique(o),
        name_valid(name),
    ensures
        grows_free(o, alloc_name_spec(o, name).0),
        ({
            let (ents, i) = alloc_name_spec(o, name);
            &&& 0 <= i < ents.len()
            &&& ents[i].ie_name == name
            &&& (!in_use(ents[i]) ==> ents[i].ie_object == 0 && ents.len() <= o.len() + 1)
            &&& (in_use(ents[i]) ==> ents == o)
        }),
{
    let (ents, i) = alloc_name_spec(o, name);
    lemma_receive_is_port_right(0);
    if name_used(o, name) {
        let k = choose|k: int| 0 <= k < o.len() && o[k].ie_name == name;
        assert(0 <= k < o.len() && o[k].ie_name == name);
    }
}

/// `ipc_object_copyout_name` does not panic.
pub open spec fn object_copyout_name_ok(s: SState, space_id: u32, object: u32, msgt: u32, name: u32) -> bool {
    let (ents, i) = alloc_name_spec(s.entries, name);
    let s1 = SState { entries: ents, ..s };
    match reuse_entry(s1, space_id, object, msgt) {
        Some(oi) => name == ents[oi].ie_name ==> copyout_room(ents[i], s.ports, object, msgt),
        None => copyout_room(ipc_entry { ie_name: 0, ie_bits: 0, ie_object: object, ie_request: 0 }, s.ports, object, msgt),
    }
}

/// `ipc_object_copyout_name`.
pub fn ipc_object_copyout_name(
    space: &mut ipc_space,
    ports: &mut Vec<ipc_port>,
    acts: &mut Vec<IpcAction>,
    object: u32,
    msgt_name: mach_msg_type_name_t,
    overflow: bool,
    name: mach_port_name_t,
) -> (kr: kern_return_t)
    requires
        0 < object < old(ports).len(),
        MACH_MSG_TYPE_MOVE_RECEIVE <= msgt_name <= MACH_MSG_TYPE_PORT_SEND_ONCE,
        name_valid(name),
        copyout_space_ok(*old(space), pv(*old(ports))),
        keys_unique(old(space).is_entries@),
        object_copyout_name_ok(sst(*old(space), *old(ports), *old(acts)), old(space).is_id, object, msgt_name, name),
    ensures
        (kr, sst(*final(space), *final(ports), *final(acts)))
            == object_copyout_name_spec(sst(*old(space), *old(ports), *old(acts)), old(space).is_active, old(space).is_id,
                object, msgt_name, overflow, name),
        final(space).is_active == old(space).is_active,
        final(space).is_id == old(space).is_id,
        final(ports).len() == old(ports).len(),
{
    let ghost s0 = sst(*space, *ports, *acts);
    if !space.is_active {
        return KERN_INVALID_TASK;
    }
    let ghost sp0 = *space;
    proof { lemma_alloc_name_grows(space.is_entries@, name); }
    let (_kr, i) = ipc_entry_alloc_name(space, name);
    proof {
        lemma_grows_free(sp0, *space, pv(*ports), name, object);
    }
    let ghost s1 = sst(*space, *ports, *acts);
    let rev = if msgt_name != MACH_MSG_TYPE_PORT_SEND_ONCE { ipc_right_reverse(space, ports, object) } else { None };
    match rev {
        Some((oname, oi)) => {
            if name != oname {
                let e = get_entry(space, i);
                if ie_bits_type(e.ie_bits) == MACH_PORT_TYPE_NONE {
                    ipc_entry_dealloc(space, i);
                }
                assert(sst(*space, *ports, *acts) =~= object_copyout_name_spec(s0, true, space.is_id, object, msgt_name, overflow, name).1);
                return KERN_RIGHT_EXISTS;
            }
            proof {
                let ents = space.is_entries@;
                let q = pv(*ports)[object as int];
                if q.receiver == space.is_id {
                    assert(q.active);
                } else {
                    assert(sends_to(ents[oi as int], object));
                }
                assert(in_use(ents[oi as int]));
                if ents.len() > sp0.is_entries.len() && i as int == ents.len() - 1 {
                    assert(!in_use(ents[i as int]));
                    assert(ents[oi as int] == sp0.is_entries@[oi as int]);
                    assert(!name_used(sp0.is_entries@, name));
                }
                if !in_use(ents[i as int]) && i != oi {
                    assert(keys_unique(sp0.is_entries@));
                    if i < sp0.is_entries.len() {
                        assert(ents[oi as int] == sp0.is_entries@[oi as int]);
                        if i < oi {
                            assert(sp0.is_entries@[i as int].ie_name != sp0.is_entries@[oi as int].ie_name);
                        } else {
                            assert(sp0.is_entries@[oi as int].ie_name != sp0.is_entries@[i as int].ie_name);
                        }
                    }
                }
                assert(i == oi);
            }
            let ghost sp1 = *space;
            let kr = ipc_right_copyout(space, i, ports, acts, msgt_name, overflow, object);
            proof {
                lemma_put(sp1, *space, i, *old(ports), *ports, *old(acts), *acts, rstate(*space, i, *ports, *acts));
            }
            kr
        },
        None => {
            let e = get_entry(space, i);
            if ie_bits_type(e.ie_bits) != MACH_PORT_TYPE_NONE {
                return KERN_NAME_EXISTS;
            }
            if !ports[object as usize].ip_active {
                ipc_entry_dealloc(space, i);
                assert(sst(*space, *ports, *acts) =~= object_copyout_name_spec(s0, true, space.is_id, object, msgt_name, overflow, name).1);
                return KERN_INVALID_CAPABILITY;
            }
            set_entry(space, i, ipc_entry { ie_object: object, ..e });
            let ghost sp1 = *space;
            let kr = ipc_right_copyout(space, i, ports, acts, msgt_name, overflow, object);
            proof {
                lemma_put(sp1, *space, i, *old(ports), *ports, *old(acts), *acts, rstate(*space, i, *ports, *acts));
            }
            kr
        },
    }
}

/// Giving a port a dead-name table that keeps every slot of the old one
/// keeps the space consistent.
pub proof fn lemma_dn_extend(space: ipc_space, ports: Seq<PortModel>, p: u32, t: Seq<crate::ipc_right::DnRequest>)
    requires
        0 <= p < ports.len(),
        t.len() >= ports[p as int].dnrequests.len(),
        forall|j: int| 0 < j < ports[p as int].dnrequests.len() ==> #[trigger] t[j] == ports[p as int].dnrequests[j],
    ensures
        space_ok(space, ports) ==> space_ok(space, ports.update(p as int, PortModel { dnrequests: t, ..ports[p as int] })),
        receivers_ok(space, ports) ==> receivers_ok(space, ports.update(p as int, PortModel { dnrequests: t, ..ports[p as int] })),
{
    let np = ports.update(p as int, PortModel { dnrequests: t, ..ports[p as int] });
    if space_ok(space, ports) {
        assert forall|i: int| 0 <= i < space.is_entries.len() && #[trigger] in_use(space.is_entries[i]) implies {
            let e = space.is_entries[i];
            &&& e.ie_name != MACH_PORT_NAME_NULL
            &&& valid_type(crate::ipc_right::ie_type(e.ie_bits))
            &&& entry_ok(e, np)
            &&& (e.ie_bits & MACH_PORT_TYPE_RECEIVE != 0 ==> {
                let q = np[e.ie_object as int];
                q.active && q.receiver_name == e.ie_name && q.receiver == space.is_id
            })
        } by {
            let e = space.is_entries[i];
            assert(entry_ok(e, ports));
            lemma_receive_is_port_right(e.ie_bits);
            let o = e.ie_object as int;
            if 0 <= o < ports.len() {
                if o == p as int {
                    assert(np[o].references == ports[o].references);
                    assert(np[o].active == ports[o].active);
                    assert(np[o].srights == ports[o].srights);
                    assert(np[o].sorights == ports[o].sorights);
                    assert(np[o].receiver == ports[o].receiver);
                    assert(np[o].receiver_name == ports[o].receiver_name);
                    if e.ie_request != 0 {
                        assert(np[o].dnrequests[e.ie_request as int] == ports[o].dnrequests[e.ie_request as int]);
                    }
                } else {
                    assert(np[o] == ports[o]);
                }
            }
        }
    }
    if receivers_ok(space, ports) {
        assert forall|pp: int| 0 < pp < np.len() && #[trigger] np[pp].active && np[pp].receiver == space.is_id implies {
            &&& lookup_spec(space, np[pp].receiver_name) is Some
            &&& space.is_entries[lookup_spec(space, np[pp].receiver_name)->0].ie_bits & MACH_PORT_TYPE_RECEIVE != 0
            &&& space.is_entries[lookup_spec(space, np[pp].receiver_name)->0].ie_object == pp
        } by {
            assert(ports[pp].active);
        }
    }
}

// ─── Renaming ────────────────────────────────────────────────────

/// `ipc_right_rename`: the right of entry `oi` moves to the fresh entry
/// `ni` (named `nname`) and entry `oi` goes back to the free list.  A
/// dead-name request moves along (or, for a port found dead, the entry is
/// a dead name first); the reverse map, a receive right's port and a port
/// set learn the new name.
pub open spec fn st_rename(s: SState, oi: int, ni: int, nname: u32) -> SState {
    let oe = s.entries[oi];
    let oname = oe.ie_name;
    let (dead, r1) = st_check(at(s, oi));
    let p = oe.ie_object;
    let rq = oe.ie_request;
    let (bits, request, object, s1) = if rq == 0 {
        (oe.ie_bits, 0u32, p, s)
    } else if dead {
        (r1.e.ie_bits, 0u32, 0u32, put(s, oi, r1))
    } else {
        let q = s.ports[p as int];
        let t = q.dnrequests;
        (oe.ie_bits, rq, p, SState {
            entries: s.entries.update(oi, ipc_entry { ie_request: 0, ..oe }),
            ports: s.ports.update(p as int, PortModel {
                dnrequests: t.update(rq as int, DnRequest { name: nname, notify: t[rq as int].notify }),
                ..q
            }),
            ..s
        })
    };
    let s2 = if bits & IE_BITS_MAREQUEST != 0 {
        sact(s1, IpcAction::RenameMarequest { oname, nname })
    } else {
        s1
    };
    let ne = s2.entries[ni];
    let s3 = SState {
        entries: s2.entries.update(ni, ipc_entry {
            ie_bits: ne.ie_bits | (bits & IE_BITS_RIGHT_MASK),
            ie_request: request,
            ie_object: object,
            ..ne
        }),
        ..s2
    };
    let t = bits & IE_BITS_TYPE_MASK;
    let s4 = if t == MACH_PORT_TYPE_SEND {
        sact(sact(s3, IpcAction::ReverseRemove { port: object }), IpcAction::ReverseInsert { port: object, name: nname })
    } else if t == MACH_PORT_TYPE_RECEIVE || t == MACH_PORT_TYPE_SEND_RECEIVE {
        let q = s3.ports[object as int];
        SState { ports: s3.ports.update(object as int, PortModel { receiver_name: nname, ..q }), ..s3 }
    } else if t == MACH_PORT_TYPE_PORT_SET {
        sact(s3, IpcAction::RenamePortSet { pset: object, name: nname })
    } else {
        s3
    };
    SState { entries: s4.entries.update(oi, freed(s4.entries[oi])), ..s4 }
}

/// What renaming entry `oi` needs: an entry in use whose dead-name request
/// belongs to a port right, consistent with its port.
pub open spec fn rename_ok(space: ipc_space, ports: Seq<PortModel>, oi: int) -> bool {
    let e = space.is_entries[oi];
    &&& space_ok(space, ports)
    &&& e.ie_request != 0 ==> e.ie_bits & MACH_PORT_TYPE_PORT_RIGHTS != 0
}

/// `ipc_right_rename`.
pub fn ipc_right_rename(
    space: &mut ipc_space,
    ports: &mut Vec<ipc_port>,
    acts: &mut Vec<IpcAction>,
    oi: usize,
    ni: usize,
    nname: mach_port_name_t,
) -> (kr: kern_return_t)
    requires
        old(space).is_active,
        oi < old(space).is_entries.len(),
        ni < old(space).is_entries.len(),
        oi != ni,
        in_use(old(space).is_entries[oi as int]),
        old(space).is_entries[ni as int].ie_name == nname,
        old(space).is_entries[oi as int].ie_name != nname,
        rename_ok(*old(space), pv(*old(ports)), oi as int),
    ensures
        kr == KERN_SUCCESS,
        sst(*final(space), *final(ports), *final(acts)) == st_rename(sst(*old(space), *old(ports), *old(acts)), oi as int, ni as int, nname),
        final(space).is_active == old(space).is_active,
        final(space).is_id == old(space).is_id,
        final(ports).len() == old(ports).len(),
{
    let ghost s0 = sst(*space, *ports, *acts);
    let oe = get_entry(space, oi);
    let oname = oe.ie_name;
    let mut bits = oe.ie_bits;
    let mut request = oe.ie_request;
    let mut object = oe.ie_object;
    proof {
        assert(entry_ok(oe, pv(*ports)));
        lemma_receive_is_port_right(oe.ie_bits);
    }
    if request != 0 {
        let ghost sp0 = *space;
        let dead = ipc_right_check(space, oi, ports, acts);
        if dead {
            proof {
                lemma_put(sp0, *space, oi, *old(ports), *ports, *old(acts), *acts, rstate(*space, oi, *ports, *acts));
            }
            bits = get_entry(space, oi).ie_bits;
            request = 0;
            object = 0;
        } else {
            let pi = object as usize;
            let ri = request as usize;
            let dn = ports[pi].ip_dnrequests[ri];
            let mut table = Vec::new();
            std::mem::swap(&mut table, &mut ports[pi].ip_dnrequests);
            table.set(ri, DnRequest { name: nname, notify: dn.notify });
            ports[pi].ip_dnrequests = table;
            set_entry(space, oi, ipc_entry { ie_request: 0, ..oe });
            proof {
                assert(pv(*ports) =~= s0.ports.update(object as int, PortModel {
                    dnrequests: s0.ports[object as int].dnrequests.update(ri as int, DnRequest { name: nname, notify: dn.notify }),
                    ..s0.ports[object as int]
                }));
            }
        }
    }
    if bits & IE_BITS_MAREQUEST != 0 {
        acts.push(IpcAction::RenameMarequest { oname, nname });
    }
    let ne = get_entry(space, ni);
    set_entry(space, ni, ipc_entry { ie_bits: ne.ie_bits | (bits & IE_BITS_RIGHT_MASK), ie_request: request, ie_object: object, ..ne });
    let t = bits & IE_BITS_TYPE_MASK;
    if t == MACH_PORT_TYPE_SEND {
        acts.push(IpcAction::ReverseRemove { port: object });
        acts.push(IpcAction::ReverseInsert { port: object, name: nname });
    } else if t == MACH_PORT_TYPE_RECEIVE || t == MACH_PORT_TYPE_SEND_RECEIVE {
        proof {
            lemma_receive_is_port_right(bits);
            lemma_receive_is_port_right(oe.ie_bits);
        }
        let m = get_port(ports, object);
        set_port(ports, object, PortScalars { receiver_name: nname, ..m });
    } else if t == MACH_PORT_TYPE_PORT_SET {
        acts.push(IpcAction::RenamePortSet { pset: object, name: nname });
    }
    let e = get_entry(space, oi);
    set_entry(space, oi, ipc_entry { ie_name: e.ie_name, ie_bits: 0, ie_object: 0, ie_request: 0 });
    proof {
        assert(sst(*space, *ports, *acts) =~= st_rename(s0, oi as int, ni as int, nname));
    }
    KERN_SUCCESS
}

/// `ipc_object_rename`: move the right named `oname` to the name `nname`.
pub open spec fn object_rename_spec(s: SState, active: bool, oname: u32, nname: u32) -> (i32, SState) {
    if !active {
        (KERN_INVALID_TASK, s)
    } else {
        let (ents, ni) = alloc_name_spec(s.entries, nname);
        let s1 = SState { entries: ents, ..s };
        let dropped = SState { entries: ents.update(ni, freed(ents[ni])), ..s };
        if in_use(ents[ni]) {
            (KERN_NAME_EXISTS, s1)
        } else if oname == nname {
            (KERN_INVALID_NAME, dropped)
        } else {
            match lookup_in(ents, oname) {
                None => (KERN_INVALID_NAME, dropped),
                Some(oi) => (KERN_SUCCESS, st_rename(s1, oi, ni, nname)),
            }
        }
    }
}

/// What renaming needs: a consistent space whose dead-name requests
/// belong to port rights, with room for one more entry.
pub open spec fn object_rename_ok(space: ipc_space, ports: Seq<PortModel>) -> bool {
    &&& space_ok(space, ports)
    &&& keys_unique(space.is_entries@)
    &&& free_ok(space.is_entries@)
    &&& sends_unique(space.is_entries@)
    &&& space.is_entries.len() < usize::MAX
    &&& forall|i: int| 0 <= i < space.is_entries.len() && in_use(#[trigger] space.is_entries[i])
        && space.is_entries[i].ie_request != 0 ==> space.is_entries[i].ie_bits & MACH_PORT_TYPE_PORT_RIGHTS != 0
}

/// `ipc_object_rename`.
pub fn ipc_object_rename(
    space: &mut ipc_space,
    ports: &mut Vec<ipc_port>,
    acts: &mut Vec<IpcAction>,
    oname: mach_port_name_t,
    nname: mach_port_name_t,
) -> (kr: kern_return_t)
    requires
        name_valid(nname),
        object_rename_ok(*old(space), pv(*old(ports))),
    ensures
        (kr, sst(*final(space), *final(ports), *final(acts)))
            == object_rename_spec(sst(*old(space), *old(ports), *old(acts)), old(space).is_active, oname, nname),
        final(space).is_active == old(space).is_active,
        final(space).is_id == old(space).is_id,
{
    let ghost s0 = sst(*space, *ports, *acts);
    if !space.is_active {
        return KERN_INVALID_TASK;
    }
    let ghost sp0 = *space;
    proof { lemma_alloc_name_grows(space.is_entries@, nname); }
    let (_kr, ni) = ipc_entry_alloc_name(space, nname);
    let ne = get_entry(space, ni);
    if ie_bits_type(ne.ie_bits) != MACH_PORT_TYPE_NONE {
        return KERN_NAME_EXISTS;
    }
    if oname == nname {
        ipc_entry_dealloc(space, ni);
        assert(sst(*space, *ports, *acts) =~= object_rename_spec(s0, true, oname, nname).1);
        return KERN_INVALID_NAME;
    }
    proof { lemma_grows_free(sp0, *space, pv(*ports), oname, 1); }
    match ipc_entry_lookup(space, oname) {
        None => {
            ipc_entry_dealloc(space, ni);
            assert(sst(*space, *ports, *acts) =~= object_rename_spec(s0, true, oname, nname).1);
            KERN_INVALID_NAME
        },
        Some(oi) => {
            proof {
                let ents = space.is_entries@;
                assert(in_use(ents[oi as int]));
                assert(ents[oi as int] == sp0.is_entries@[oi as int]);
                assert(rename_ok(*space, pv(*ports), oi as int));
            }
            ipc_right_rename(space, ports, acts, oi, ni, nname)
        },
    }
}

/// `mach_port_rename`: `KERN_INVALID_VALUE` for a new name that is null or
/// dead.
pub fn mach_port_rename(
    space: &mut ipc_space,
    ports: &mut Vec<ipc_port>,
    acts: &mut Vec<IpcAction>,
    oname: mach_port_name_t,
    nname: mach_port_name_t,
) -> (kr: kern_return_t)
    requires
        object_rename_ok(*old(space), pv(*old(ports))),
    ensures
        !name_valid(nname) ==> kr == KERN_INVALID_VALUE && *final(space) == *old(space) && *final(ports) == *old(ports)
            && *final(acts) == *old(acts),
        name_valid(nname) ==> (kr, sst(*final(space), *final(ports), *final(acts)))
            == object_rename_spec(sst(*old(space), *old(ports), *old(acts)), old(space).is_active, oname, nname),
{
    if nname == MACH_PORT_NAME_NULL || nname == MACH_PORT_NAME_DEAD {
        return KERN_INVALID_VALUE;
    }
    ipc_object_rename(space, ports, acts, oname, nname)
}

// ─── Rights that cannot be delivered ─────────────────────────────

/// `ipc_port_release_send`: a send right of the port goes away (with its
/// reference); the last one of a live port takes the no-senders request.
pub open spec fn release_send_spec(s: SState, p: u32) -> SState {
    let q = s.ports[p as int];
    if !q.active {
        srel(s, p)
    } else {
        let sr = (q.srights - 1) as u32;
        let ns = if sr == 0 { q.nsrequest } else { 0 };
        let q1 = PortModel {
            references: (q.references - 1) as u32,
            srights: sr,
            nsrequest: if ns != 0 { 0 } else { q.nsrequest },
            ..q
        };
        let s1 = SState { ports: s.ports.update(p as int, q1), ..s };
        if ns != 0 { sact(s1, IpcAction::NotifyNoSenders { notify: ns, mscount: q.mscount }) } else { s1 }
    }
}

/// `ipc_port_release_send`.
pub fn ipc_port_release_send(space: &ipc_space, ports: &mut Vec<ipc_port>, acts: &mut Vec<IpcAction>, p: u32)
    requires
        0 < p < old(ports).len(),
        old(ports)[p as int].ip_references > 0,
        old(ports)[p as int].ip_active ==> old(ports)[p as int].ip_srights > 0,
    ensures
        final(ports).len() == old(ports).len(),
        sst(*space, *final(ports), *final(acts)) == release_send_spec(sst(*space, *old(ports), *old(acts)), p),
{
    let ghost s0 = sst(*space, *ports, *acts);
    if !ports[p as usize].ip_active {
        port_release(ports, p, acts);
        assert(sst(*space, *ports, *acts) == srel(s0, p));
        return;
    }
    let m = get_port(ports, p);
    let sr = m.srights - 1;
    let ns = if sr == 0 { m.nsrequest } else { 0 };
    set_port(ports, p, PortScalars {
        references: m.references - 1,
        srights: sr,
        nsrequest: if ns != 0 { 0 } else { m.nsrequest },
        ..m
    });
    if ns != 0 {
        acts.push(IpcAction::NotifyNoSenders { notify: ns, mscount: m.mscount });
    }
    assert(sst(*space, *ports, *acts) =~= release_send_spec(s0, p));
}

/// `ipc_port_make_send`: a new send right for a live port, counted in
/// its make-send count, with a reference.
pub open spec fn make_send_spec(ports: Seq<PortModel>, p: u32) -> Seq<PortModel> {
    let q = ports[p as int];
    ports.update(p as int, PortModel {
        mscount: (q.mscount + 1) as u32,
        srights: (q.srights + 1) as u32,
        references: (q.references + 1) as u32,
        ..q
    })
}

/// A port that a new right can be made for: a live port with room in its
/// counters.
pub open spec fn make_ok(ports: Seq<PortModel>, p: u32) -> bool {
    &&& 0 < p < ports.len()
    &&& p != IO_DEAD
    &&& ports[p as int].active
    &&& ports[p as int].references < u32::MAX
    &&& ports[p as int].srights < u32::MAX
    &&& ports[p as int].sorights < u32::MAX
    &&& ports[p as int].mscount < u32::MAX
}

/// `ipc_port_make_send`.
pub fn ipc_port_make_send(ports: &mut Vec<ipc_port>, p: u32) -> (r: u32)
    requires
        make_ok(pv(*old(ports)), p),
    ensures
        r == p,
        final(ports).len() == old(ports).len(),
        pv(*final(ports)) == make_send_spec(pv(*old(ports)), p),
{
    let m = get_port(ports, p);
    set_port(ports, p, PortScalars { mscount: m.mscount + 1, srights: m.srights + 1, references: m.references + 1, ..m });
    p
}

/// `ipc_port_make_sonce`: a new send-once right for a live port, with a
/// reference.
pub open spec fn make_sonce_spec(ports: Seq<PortModel>, p: u32) -> Seq<PortModel> {
    let q = ports[p as int];
    ports.update(p as int, PortModel { sorights: (q.sorights + 1) as u32, references: (q.references + 1) as u32, ..q })
}

/// `ipc_port_make_sonce`.
pub fn ipc_port_make_sonce(ports: &mut Vec<ipc_port>, p: u32) -> (r: u32)
    requires
        make_ok(pv(*old(ports)), p),
    ensures
        r == p,
        final(ports).len() == old(ports).len(),
        pv(*final(ports)) == make_sonce_spec(pv(*old(ports)), p),
{
    let m = get_port(ports, p);
    set_port(ports, p, PortScalars { sorights: m.sorights + 1, references: m.references + 1, ..m });
    p
}

/// `ipc_port_copyout_send`: the name under which the space now holds the
/// send right `sright` (null or dead for a null or dead right).  When the
/// space is dead or the port died, the right is released and the name is
/// null, or dead for a dead port.
pub open spec fn copyout_send_spec(s: SState, active: bool, space_id: u32, sright: u32, fresh: u32) -> (u32, SState) {
    if sright == 0 || sright == IO_DEAD {
        (if sright == 0 { MACH_PORT_NAME_NULL } else { MACH_PORT_NAME_DEAD }, s)
    } else {
        let (kr, name, s1) = object_copyout_spec(s, active, space_id, sright, MACH_MSG_TYPE_PORT_SEND, true, fresh);
        if kr != KERN_SUCCESS {
            (if kr == KERN_INVALID_CAPABILITY { MACH_PORT_NAME_DEAD } else { MACH_PORT_NAME_NULL }, release_send_spec(s1, sright))
        } else {
            (name, s1)
        }
    }
}

/// What copying a send right out relies on: the right holds a reference
/// (and is counted while the port lives), and the space can take it.
pub open spec fn copyout_send_ok(space: ipc_space, s: SState, sright: u32, fresh: u32) -> bool {
    sright != 0 && sright != IO_DEAD ==> {
        &&& 0 < sright < s.ports.len()
        &&& s.ports[sright as int].references > 0
        &&& s.ports[sright as int].active ==> s.ports[sright as int].srights > 0
        &&& copyout_space_ok(space, s.ports)
        &&& first_free(space.is_entries@) is None ==> name_valid(fresh) && !name_used(space.is_entries@, fresh)
        &&& object_copyout_ok(s, space.is_id, sright, MACH_MSG_TYPE_PORT_SEND)
    }
}

/// `ipc_port_copyout_send`.
pub fn ipc_port_copyout_send(
    space: &mut ipc_space,
    ports: &mut Vec<ipc_port>,
    acts: &mut Vec<IpcAction>,
    sright: u32,
    fresh: mach_port_name_t,
) -> (name: mach_port_name_t)
    requires
        copyout_send_ok(*old(space), sst(*old(space), *old(ports), *old(acts)), sright, fresh),
    ensures
        (name, sst(*final(space), *final(ports), *final(acts)))
            == copyout_send_spec(sst(*old(space), *old(ports), *old(acts)), old(space).is_active, old(space).is_id, sright, fresh),
        final(space).is_active == old(space).is_active,
        final(space).is_id == old(space).is_id,
        final(ports).len() == old(ports).len(),
{
    if sright == 0 {
        return MACH_PORT_NAME_NULL;
    }
    if sright == IO_DEAD {
        return MACH_PORT_NAME_DEAD;
    }
    let ghost s0 = sst(*space, *ports, *acts);
    let (kr, name) = ipc_object_copyout(space, ports, acts, sright, MACH_MSG_TYPE_PORT_SEND, true, fresh);
    if kr != KERN_SUCCESS {
        assert(pv(*ports) == s0.ports);
        ipc_port_release_send(space, ports, acts, sright);
        if kr == KERN_INVALID_CAPABILITY {
            MACH_PORT_NAME_DEAD
        } else {
            MACH_PORT_NAME_NULL
        }
    } else {
        name
    }
}

/// `ipc_object_destroy`: a right of kind `msgt` carried by a message that
/// will not be delivered goes away: a send right is released, a send-once
/// right turns into a send-once notification, and a receive right destroys
/// its port (releasing the port it was queued on).
pub open spec fn destroy_spec(s: SState, p: u32, msgt: u32) -> SState {
    if msgt == MACH_MSG_TYPE_PORT_SEND {
        release_send_spec(s, p)
    } else if msgt == MACH_MSG_TYPE_PORT_SEND_ONCE {
        sact(s, IpcAction::NotifySendOnce { port: p })
    } else {
        let d = s.ports[p as int].destination;
        let s1 = sact(s, IpcAction::DestroyPort { port: p });
        if d != 0 { srel(s1, d) } else { s1 }
    }
}

/// What destroying a right needs: the port, its reference and the right;
/// a receive right's port is alive and named by no space.
pub open spec fn destroy_ok(ports: Seq<PortModel>, p: u32, msgt: u32) -> bool {
    let q = ports[p as int];
    &&& 0 < p < ports.len()
    &&& MACH_MSG_TYPE_PORT_RECEIVE <= msgt <= MACH_MSG_TYPE_PORT_SEND_ONCE
    &&& msgt == MACH_MSG_TYPE_PORT_SEND ==> q.references > 0 && (q.active ==> q.srights > 0)
    &&& msgt == MACH_MSG_TYPE_PORT_RECEIVE ==> {
        &&& q.active
        &&& q.receiver_name == MACH_PORT_NAME_NULL
        &&& q.destination != 0 ==> q.destination < ports.len() && ports[q.destination as int].references > 0
    }
}

/// `ipc_object_destroy`.
pub fn ipc_object_destroy(space: &ipc_space, ports: &mut Vec<ipc_port>, acts: &mut Vec<IpcAction>, p: u32, msgt_name: mach_msg_type_name_t)
    requires
        destroy_ok(pv(*old(ports)), p, msgt_name),
    ensures
        final(ports).len() == old(ports).len(),
        sst(*space, *final(ports), *final(acts)) == destroy_spec(sst(*space, *old(ports), *old(acts)), p, msgt_name),
{
    let ghost s0 = sst(*space, *ports, *acts);
    if msgt_name == MACH_MSG_TYPE_PORT_SEND {
        ipc_port_release_send(space, ports, acts, p);
    } else if msgt_name == MACH_MSG_TYPE_PORT_SEND_ONCE {
        acts.push(IpcAction::NotifySendOnce { port: p });
        assert(sst(*space, *ports, *acts) =~= destroy_spec(s0, p, msgt_name));
    } else {
        let d = ports[p as usize].ip_destination;
        acts.push(IpcAction::DestroyPort { port: p });
        if d != 0 {
            let ghost s1 = sst(*space, *ports, *acts);
            assert(s1 =~= sact(s0, IpcAction::DestroyPort { port: p }));
            port_release(ports, d, acts);
            assert(sst(*space, *ports, *acts) == srel(s1, d));
        } else {
            assert(sst(*space, *ports, *acts) =~= destroy_spec(s0, p, msgt_name));
        }
    }
}

/// The entry holding send rights, and no receive right, to port `p` (the
/// space's reverse map).
pub open spec fn reverse_map(entries: Seq<ipc_entry>, p: u32) -> Option<int> {
    if exists|i: int| 0 <= i < entries.len() && sends_to(entries[i], p) && entries[i].ie_bits & MACH_PORT_TYPE_RECEIVE == 0 {
        Some(choose|i: int| 0 <= i < entries.len() && sends_to(entries[i], p) && entries[i].ie_bits & MACH_PORT_TYPE_RECEIVE == 0)
    } else {
        None
    }
}

/// `ipc_kmsg_copyout_object`: a right carried in a message body becomes a
/// name of the receiving space: the status and the name (the null or dead
/// name for a null or dead port).  A send right for which the space holds
/// a send entry joins it (the user reference is dropped when the count is
/// at its maximum); otherwise the right is copied out as
/// `ipc_object_copyout` does, and a right that cannot be copied out is
/// destroyed.
pub open spec fn kmsg_copyout_object_spec(s: SState, active: bool, space_id: u32, object: u32, msgt: u32, fresh: u32)
    -> (i32, u32, SState)
{
    if object == 0 || object == IO_DEAD {
        (MACH_MSG_SUCCESS, if object == 0 { MACH_PORT_NAME_NULL } else { MACH_PORT_NAME_DEAD }, s)
    } else if msgt == MACH_MSG_TYPE_PORT_SEND && active && s.ports[object as int].active && reverse_map(s.entries, object) is Some {
        let i = reverse_map(s.entries, object)->0;
        let e = s.entries[i];
        let q = s.ports[object as int];
        let bits = (e.ie_bits + 1) as u32;
        (MACH_MSG_SUCCESS, e.ie_name, SState {
            entries: if ie_urefs(bits) < MACH_PORT_UREFS_MAX { s.entries.update(i, ipc_entry { ie_bits: bits, ..e }) } else { s.entries },
            ports: s.ports.update(object as int, PortModel {
                srights: (q.srights - 1) as u32,
                references: (q.references - 1) as u32,
                ..q
            }),
            ..s
        })
    } else {
        let (kr, name, s1) = object_copyout_spec(s, active, space_id, object, msgt, true, fresh);
        if kr == KERN_SUCCESS {
            (MACH_MSG_SUCCESS, name, s1)
        } else if kr == KERN_INVALID_CAPABILITY {
            (MACH_MSG_SUCCESS, MACH_PORT_NAME_DEAD, destroy_spec(s1, object, msgt))
        } else {
            (MACH_MSG_IPC_SPACE, MACH_PORT_NAME_NULL, destroy_spec(s1, object, msgt))
        }
    }
}

/// `ipc_kmsg_copyout_object` does not panic.
pub open spec fn kmsg_copyout_object_ok(space: ipc_space, ports: Seq<PortModel>, object: u32, msgt: u32, fresh: u32) -> bool {
    let s = SState { entries: space.is_entries@, ports, acts: Seq::empty() };
    object != 0 && object != IO_DEAD ==> {
        &&& 0 < object < ports.len()
        &&& MACH_MSG_TYPE_PORT_RECEIVE <= msgt <= MACH_MSG_TYPE_PORT_SEND_ONCE
        &&& copyout_space_ok(space, ports)
        &&& first_free(space.is_entries@) is None ==> name_valid(fresh) && !name_used(space.is_entries@, fresh)
        &&& object_copyout_ok(s, space.is_id, object, msgt)
        &&& destroy_ok(ports, object, msgt)
        &&& (msgt == MACH_MSG_TYPE_PORT_SEND && space.is_active && ports[object as int].active
            && reverse_map(space.is_entries@, object) is Some) ==> {
            let e = space.is_entries[reverse_map(space.is_entries@, object)->0];
            &&& ports[object as int].srights > 1
            &&& ports[object as int].references > 0
            &&& 0 < ie_urefs(e.ie_bits) < MACH_PORT_UREFS_MAX
        }
    }
}

/// `ipc_kmsg_copyout_object`.
pub fn ipc_kmsg_copyout_object(
    space: &mut ipc_space,
    ports: &mut Vec<ipc_port>,
    acts: &mut Vec<IpcAction>,
    object: u32,
    msgt_name: mach_msg_type_name_t,
    fresh: mach_port_name_t,
) -> (r: (mach_msg_return_t, mach_port_name_t))
    requires
        kmsg_copyout_object_ok(*old(space), pv(*old(ports)), object, msgt_name, fresh),
    ensures
        (r.0, r.1, sst(*final(space), *final(ports), *final(acts)))
            == kmsg_copyout_object_spec(sst(*old(space), *old(ports), *old(acts)), old(space).is_active, old(space).is_id,
                object, msgt_name, fresh),
        final(space).is_active == old(space).is_active,
        final(space).is_id == old(space).is_id,
{
    let ghost s0 = sst(*space, *ports, *acts);
    if object == 0 {
        return (MACH_MSG_SUCCESS, MACH_PORT_NAME_NULL);
    }
    if object == IO_DEAD {
        return (MACH_MSG_SUCCESS, MACH_PORT_NAME_DEAD);
    }
    if msgt_name == MACH_MSG_TYPE_PORT_SEND && space.is_active && ports[object as usize].ip_active {
        let mut i: usize = 0;
        while i < space.is_entries.len()
            invariant
                i <= space.is_entries.len(),
                *space == *old(space),
                *ports == *old(ports),
                *acts == *old(acts),
                s0 == sst(*old(space), *old(ports), *old(acts)),
                kmsg_copyout_object_ok(*old(space), pv(*old(ports)), object, msgt_name, fresh),
                object != 0 && object != IO_DEAD,
                msgt_name == MACH_MSG_TYPE_PORT_SEND,
                space.is_active,
                ports[object as int].ip_active,
                forall|j: int| 0 <= j < i ==> !(sends_to(#[trigger] space.is_entries[j], object)
                    && space.is_entries[j].ie_bits & MACH_PORT_TYPE_RECEIVE == 0),
            decreases space.is_entries.len() - i,
        {
            let e = space.is_entries[i];
            if e.ie_object == object && e.ie_bits & MACH_PORT_TYPE_SEND != 0 && e.ie_bits & MACH_PORT_TYPE_RECEIVE == 0
                && ie_bits_type(e.ie_bits) != MACH_PORT_TYPE_NONE {
                proof {
                    let ents = space.is_entries@;
                    assert(sends_to(ents[i as int], object) && ents[i as int].ie_bits & MACH_PORT_TYPE_RECEIVE == 0);
                    let k = choose|k: int| 0 <= k < ents.len() && sends_to(ents[k], object)
                        && ents[k].ie_bits & MACH_PORT_TYPE_RECEIVE == 0;
                    if k != i as int {
                        if k < i as int {
                            assert(ents[k].ie_object != ents[i as int].ie_object);
                        } else {
                            assert(ents[i as int].ie_object != ents[k].ie_object);
                        }
                    }
                    lemma_entry_bits(e.ie_bits);
                    assert(reverse_map(ents, object) == Some(i as int));
                }
                let m = get_port(ports, object);
                let ghost before = pv(*ports);
                assert(before == s0.ports);
                set_port(ports, object, PortScalars { srights: m.srights - 1, references: m.references - 1, ..m });
                assert(pv(*ports) == before.update(object as int, PortModel {
                    srights: (before[object as int].srights - 1) as u32,
                    references: (before[object as int].references - 1) as u32,
                    ..before[object as int]
                }));
                let bits = e.ie_bits + 1;
                if ie_bits_urefs(bits) < MACH_PORT_UREFS_MAX {
                    set_entry(space, i, ipc_entry { ie_bits: bits, ..e });
                }
                proof {
                    let r = kmsg_copyout_object_spec(s0, true, space.is_id, object, msgt_name, fresh);
                    let q = s0.ports[object as int];
                    assert(pv(*ports) =~= s0.ports.update(object as int, PortModel {
                        srights: (q.srights - 1) as u32,
                        references: (q.references - 1) as u32,
                        ..q
                    }));
                    assert(r.2.ports == pv(*ports));
                    assert(r.2.entries =~= space.is_entries@);
                    assert(r.2.acts == acts@);
                }
                assert(sst(*space, *ports, *acts) =~= kmsg_copyout_object_spec(s0, true, space.is_id, object, msgt_name, fresh).2);
                return (MACH_MSG_SUCCESS, e.ie_name);
            }
            i = i + 1;
        }
    }
    let (kr, name) = ipc_object_copyout(space, ports, acts, object, msgt_name, true, fresh);
    if kr == KERN_SUCCESS {
        return (MACH_MSG_SUCCESS, name);
    }
    let ghost s1 = sst(*space, *ports, *acts);
    ipc_object_destroy(space, ports, acts, object, msgt_name);
    if kr == KERN_INVALID_CAPABILITY {
        (MACH_MSG_SUCCESS, MACH_PORT_NAME_DEAD)
    } else {
        (MACH_MSG_IPC_SPACE, MACH_PORT_NAME_NULL)
    }
}

// ─── Allocating objects ──────────────────────────────────────────

/// `ipc_object_alloc`: the entries once an entry is allocated for the new
/// object `object` and given the right `typ` with `urefs` user
/// references, with the entry's position.
pub open spec fn object_alloc_spec(entries: Seq<ipc_entry>, fresh: u32, typ: u32, urefs: u32, object: u32) -> (Seq<ipc_entry>, int) {
    let (ents, i) = alloc_spec(entries, fresh);
    (ents.update(i, ipc_entry { ie_bits: typ | urefs, ie_object: object, ..ents[i] }), i)
}

/// What `ipc_object_alloc` and `ipc_object_alloc_name` need: a proper
/// right and a legal count of user references.
pub open spec fn alloc_right_ok(typ: u32, urefs: u32) -> bool {
    &&& typ & MACH_PORT_TYPE_ALL_RIGHTS == typ
    &&& typ != MACH_PORT_TYPE_NONE
    &&& urefs <= MACH_PORT_UREFS_MAX
}

/// The rights a new port, port set or dead name starts with are proper.
pub proof fn lemma_alloc_rights()
    by (bit_vector)
    ensures
        alloc_right_ok(MACH_PORT_TYPE_RECEIVE, 0),
        alloc_right_ok(MACH_PORT_TYPE_PORT_SET, 0),
        alloc_right_ok(MACH_PORT_TYPE_DEAD_NAME, 1),
{
}

/// `ipc_object_alloc`: allocate an entry of the space (the head of its
/// free list, or a new entry named `fresh`) for the new object `object`
/// (the caller's index for it) with the right `typ` and `urefs` user
/// references; returns the status and the entry's name.
pub fn ipc_object_alloc(
    space: &mut ipc_space,
    typ: mach_port_type_t,
    urefs: mach_port_urefs_t,
    object: u32,
    fresh: mach_port_name_t,
) -> (r: (kern_return_t, mach_port_name_t))
    requires
        alloc_right_ok(typ, urefs),
        free_ok(old(space).is_entries@),
        first_free(old(space).is_entries@) is None ==> name_valid(fresh) && !name_used(old(space).is_entries@, fresh),
        old(space).is_entries.len() < usize::MAX,
    ensures
        final(space).is_active == old(space).is_active,
        final(space).is_id == old(space).is_id,
        !old(space).is_active ==> r.0 == KERN_INVALID_TASK && *final(space) == *old(space),
        old(space).is_active ==> {
            let (ents, i) = object_alloc_spec(old(space).is_entries@, fresh, typ, urefs, object);
            &&& r == (KERN_SUCCESS, ents[i].ie_name)
            &&& final(space).is_entries@ == ents
        },
{
    proof { lemma_alloc_grows(space.is_entries@, fresh); }
    let (kr, name, i) = ipc_entry_alloc(space, fresh);
    if kr != KERN_SUCCESS {
        return (kr, 0);
    }
    let e = get_entry(space, i);
    proof {
        assert(e.ie_bits == 0);
        assert(0u32 | typ | urefs == typ | urefs) by (bit_vector);
    }
    set_entry(space, i, ipc_entry { ie_bits: e.ie_bits | typ | urefs, ie_object: object, ..e });
    (KERN_SUCCESS, name)
}

/// `ipc_object_alloc_name`: the status and the entries once an entry named
/// `name` is allocated for the new object; `KERN_NAME_EXISTS` when the
/// name already denotes a right.
pub open spec fn object_alloc_name_spec(entries: Seq<ipc_entry>, name: u32, typ: u32, urefs: u32, object: u32) -> (i32, Seq<ipc_entry>) {
    let (ents, i) = alloc_name_spec(entries, name);
    if in_use(ents[i]) {
        (KERN_NAME_EXISTS, ents)
    } else {
        (KERN_SUCCESS, ents.update(i, ipc_entry { ie_bits: typ | urefs, ie_object: object, ..ents[i] }))
    }
}

/// `ipc_object_alloc_name`: allocate the entry named `name` for the new
/// object `object` with the right `typ` and `urefs` user references.
pub fn ipc_object_alloc_name(
    space: &mut ipc_space,
    typ: mach_port_type_t,
    urefs: mach_port_urefs_t,
    object: u32,
    name: mach_port_name_t,
) -> (kr: kern_return_t)
    requires
        alloc_right_ok(typ, urefs),
        name_valid(name),
        keys_unique(old(space).is_entries@),
        free_ok(old(space).is_entries@),
        old(space).is_entries.len() < usize::MAX,
    ensures
        final(space).is_active == old(space).is_active,
        final(space).is_id == old(space).is_id,
        !old(space).is_active ==> kr == KERN_INVALID_TASK && *final(space) == *old(space),
        old(space).is_active ==> (kr, final(space).is_entries@) == object_alloc_name_spec(old(space).is_entries@, name, typ, urefs, object),
{
    proof { lemma_alloc_name_grows(space.is_entries@, name); }
    let (kr, i) = ipc_entry_alloc_name(space, name);
    if kr != KERN_SUCCESS {
        return kr;
    }
    if ipc_right_inuse(space, i) {
        return KERN_NAME_EXISTS;
    }
    let e = get_entry(space, i);
    proof {
        let o = old(space).is_entries@;
        if name_used(o, name) {
            let k = choose|k: int| 0 <= k < o.len() && o[k].ie_name == name;
            assert(!in_use(o[k]) ==> o[k].ie_bits == 0);
        }
        assert(e.ie_bits == 0);
        assert(0u32 | typ | urefs == typ | urefs) by (bit_vector);
    }
    set_entry(space, i, ipc_entry { ie_bits: e.ie_bits | typ | urefs, ie_object: object, ..e });
    KERN_SUCCESS
}

/// `ipc_object_alloc_dead`: allocate an entry holding a dead name with one
/// user reference; returns the status and the name.
pub fn ipc_object_alloc_dead(space: &mut ipc_space, fresh: mach_port_name_t) -> (r: (kern_return_t, mach_port_name_t))
    requires
        free_ok(old(space).is_entries@),
        first_free(old(space).is_entries@) is None ==> name_valid(fresh) && !name_used(old(space).is_entries@, fresh),
        old(space).is_entries.len() < usize::MAX,
    ensures
        final(space).is_active == old(space).is_active,
        final(space).is_id == old(space).is_id,
        !old(space).is_active ==> r.0 == KERN_INVALID_TASK && *final(space) == *old(space),
        old(space).is_active ==> {
            let (ents, i) = object_alloc_spec(old(space).is_entries@, fresh, MACH_PORT_TYPE_DEAD_NAME, 1, 0);
            &&& r == (KERN_SUCCESS, ents[i].ie_name)
            &&& final(space).is_entries@ == ents
        },
{
    proof { lemma_alloc_rights(); }
    ipc_object_alloc(space, MACH_PORT_TYPE_DEAD_NAME, 1, 0, fresh)
}

/// `ipc_object_alloc_dead_name`: allocate the entry named `name` holding a
/// dead name with one user reference.
pub fn ipc_object_alloc_dead_name(space: &mut ipc_space, name: mach_port_name_t) -> (kr: kern_return_t)
    requires
        name_valid(name),
        keys_unique(old(space).is_entries@),
        free_ok(old(space).is_entries@),
        old(space).is_entries.len() < usize::MAX,
    ensures
        final(space).is_active == old(space).is_active,
        final(space).is_id == old(space).is_id,
        !old(space).is_active ==> kr == KERN_INVALID_TASK && *final(space) == *old(space),
        old(space).is_active ==> (kr, final(space).is_entries@)
            == object_alloc_name_spec(old(space).is_entries@, name, MACH_PORT_TYPE_DEAD_NAME, 1, 0),
{
    proof { lemma_alloc_rights(); }
    ipc_object_alloc_name(space, MACH_PORT_TYPE_DEAD_NAME, 1, 0, name)
}

// ─── Translating names ───────────────────────────────────────────

/// The type bit of the right `right` (`MACH_PORT_TYPE(right)`).
pub open spec fn right_bit(right: u32) -> u32 {
    1u32 << (right + 16) as u32
}

/// The type bits of the five rights.
pub proof fn lemma_right_bits()
    by (bit_vector)
    ensures
        right_bit(0) == 0x0001_0000u32,
        right_bit(1) == 0x0002_0000u32,
        right_bit(2) == 0x0004_0000u32,
        right_bit(3) == 0x0008_0000u32,
        right_bit(4) == 0x0010_0000u32,
{
}

/// `ipc_object_translate`: the object the space names `name`, when the
/// name denotes the right `right` in an active space.
pub open spec fn translate_spec(space: ipc_space, name: u32, right: u32) -> Result<u32, i32> {
    if !space.is_active {
        Err(KERN_INVALID_TASK)
    } else {
        match lookup_spec(space, name) {
            None => Err(KERN_INVALID_NAME),
            Some(i) => if space.is_entries[i].ie_bits & right_bit(right) == 0 {
                Err(KERN_INVALID_RIGHT)
            } else {
                Ok(space.is_entries[i].ie_object)
            },
        }
    }
}

/// `ipc_object_translate`.
pub fn ipc_object_translate(space: &ipc_space, name: mach_port_name_t, right: mach_port_right_t) -> (r: Result<u32, kern_return_t>)
    requires
        names_unique(*space),
        right < 16,
        translate_spec(*space, name, right) matches Ok(o) ==> o != 0,
    ensures
        r == translate_spec(*space, name, right),
{
    match ipc_right_lookup_write(space, name) {
        Err(kr) => Err(kr),
        Ok(i) => {
            let e = get_entry(space, i);
            if e.ie_bits & MACH_PORT_TYPE(right) == 0 {
                Err(KERN_INVALID_RIGHT)
            } else {
                Ok(e.ie_object)
            }
        },
    }
}

// ─── Copying a right in by name ──────────────────────────────────

/// `ipc_object_copyin`: take a right of kind `msgt` from the entry named
/// `name` (dead names accepted); the entry goes back on the free list when
/// it is left holding nothing, and a dead-name request dropped with a send
/// right turns into a port-deleted notification.  Returns the status, the
/// object, and the state.
pub open spec fn object_copyin_spec(s: SState, space: ipc_space, name: u32, msgt: u32) -> (i32, u32, SState) {
    if !space.is_active {
        (KERN_INVALID_TASK, 0, s)
    } else {
        match lookup_spec(space, name) {
            None => (KERN_INVALID_NAME, 0, s),
            Some(i) => {
                let (kr, object, soright, s1) = cin(s, i, msgt, true);
                let s2 = dealloc_if_none(s1, i);
                (kr, object, if kr == KERN_SUCCESS && soright != 0 {
                    sact(s2, IpcAction::NotifyPortDeleted { notify: soright, name })
                } else {
                    s2
                })
            },
        }
    }
}

/// What `ipc_object_copyin` relies on: the entry named `name`, if any, is
/// consistent and its port has room in its counters.
pub open spec fn object_copyin_ok(s: SState, space: ipc_space, name: u32) -> bool {
    lookup_spec(space, name) matches Some(i) ==> cin_ok(s, i)
}

/// `ipc_object_copyin`.
pub fn ipc_object_copyin(
    space: &mut ipc_space,
    ports: &mut Vec<ipc_port>,
    acts: &mut Vec<IpcAction>,
    name: mach_port_name_t,
    msgt_name: mach_msg_type_name_t,
) -> (r: (kern_return_t, u32))
    requires
        names_unique(*old(space)),
        MACH_MSG_TYPE_MOVE_RECEIVE <= msgt_name <= MACH_MSG_TYPE_MAKE_SEND_ONCE,
        object_copyin_ok(sst(*old(space), *old(ports), *old(acts)), *old(space), name),
    ensures
        (r.0, r.1, sst(*final(space), *final(ports), *final(acts)))
            == object_copyin_spec(sst(*old(space), *old(ports), *old(acts)), *old(space), name, msgt_name),
        final(space).is_active == old(space).is_active,
        final(space).is_id == old(space).is_id,
{
    let i = match ipc_right_lookup_write(space, name) {
        Err(kr) => { return (kr, 0); },
        Ok(i) => i,
    };
    let (kr, object, soright) = copyin_at(space, i, ports, acts, msgt_name, true);
    entry_dealloc_if_none(space, i);
    if kr == KERN_SUCCESS && soright != 0 {
        acts.push(IpcAction::NotifyPortDeleted { notify: soright, name });
    }
    (kr, object)
}

} // verus!
