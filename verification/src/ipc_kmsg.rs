//! Copying the header of a message into the kernel: the destination and
//! reply names of the header are checked against the sender's space and
//! turned into the rights the message carries.

use vstd::prelude::*;
use crate::ipc_right::{
    check_ok, copyin_check_spec, entry_ok, freed, get_entry, ie_type, ie_urefs, in_use, ipc_entry,
    ipc_entry_lookup, ipc_port, ipc_port_release, ipc_right_copyin, ipc_right_copyin_check,
    ipc_right_copyin_two, ipc_right_copyin_undo, ipc_space, lookup_in, names_unique, port_room, pv,
    release_actions, released, rstate, set_entry, space_frame, space_ok, st_copyin, st_copyin_two,
    st_copyin_undo, IpcAction, PortModel, RState, IO_DEAD,
};
use crate::mach_types::{
    ip_timestamp_order, mach_msg_header_t, mach_msg_return_t, mach_msg_type_name_t, mach_port_name_t,
    mach_port_name_valid, MACH_MSGH_BITS, MACH_MSGH_BITS_LOCAL, MACH_MSGH_BITS_OTHER,
    MACH_MSG_SUCCESS, MACH_MSG_TYPE_COPY_SEND, MACH_MSG_TYPE_MAKE_SEND, MACH_MSG_TYPE_MAKE_SEND_ONCE,
    MACH_MSG_TYPE_MOVE_RECEIVE, MACH_MSG_TYPE_MOVE_SEND, MACH_MSG_TYPE_MOVE_SEND_ONCE,
    MACH_MSG_TYPE_PORT_ANY_SEND, MACH_MSG_TYPE_PORT_RECEIVE, MACH_MSG_TYPE_PORT_SEND,
    MACH_MSG_TYPE_PORT_SEND_ONCE, MACH_PORT_NAME_DEAD, MACH_PORT_NAME_NULL, MACH_PORT_TYPE_DEAD_NAME,
    MACH_PORT_TYPE_NONE, MACH_PORT_TYPE_PORT_RIGHTS, MACH_PORT_TYPE_RECEIVE, MACH_PORT_UREFS_MAX,
    MACH_SEND_INVALID_DEST, MACH_SEND_INVALID_HEADER, MACH_SEND_INVALID_NOTIFY,
    MACH_SEND_INVALID_REPLY, MACH_MSGH_BITS_CIRCULAR, KERN_SUCCESS,
};

verus! {

/// A space's entries, all ports and the work handed on so far.
#[verifier::ext_equal]
pub ghost struct SState {
    pub entries: Seq<ipc_entry>,
    pub ports: Seq<PortModel>,
    pub acts: Seq<IpcAction>,
}

pub open spec fn sst(space: ipc_space, ports: Vec<ipc_port>, acts: Vec<IpcAction>) -> SState {
    SState { entries: space.is_entries@, ports: pv(ports), acts: acts@ }
}

/// The rights state of entry `i`.
pub open spec fn at(s: SState, i: int) -> RState {
    RState { e: s.entries[i], ports: s.ports, acts: s.acts }
}

/// The space after entry `i` went through a rights operation ending in `r`.
pub open spec fn put(s: SState, i: int, r: RState) -> SState {
    SState { entries: s.entries.update(i, r.e), ports: r.ports, acts: r.acts }
}

/// A rights operation on one entry, seen on the whole space.
pub proof fn lemma_put(o: ipc_space, n: ipc_space, idx: usize, op: Vec<ipc_port>, np: Vec<ipc_port>,
    oa: Vec<IpcAction>, na: Vec<IpcAction>, r: RState)
    requires
        idx < o.is_entries.len(),
        space_frame(o, n, idx),
        rstate(n, idx, np, na) == r,
    ensures
        sst(n, np, na) == put(sst(o, op, oa), idx as int, r),
{
    assert(sst(n, np, na).entries =~= put(sst(o, op, oa), idx as int, r).entries);
}

/// `ipc_port_copy_send`: another send right for the port (a dead port
/// gives the dead right).
pub open spec fn copy_send_spec(s: SState, p: u32) -> (u32, SState) {
    if p == 0 || p == IO_DEAD {
        (p, s)
    } else if !s.ports[p as int].active {
        (IO_DEAD, s)
    } else {
        let q = s.ports[p as int];
        (p, SState { ports: s.ports.update(p as int, PortModel {
            srights: (q.srights + 1) as u32, references: (q.references + 1) as u32, ..q }), ..s })
    }
}

/// `ipc_port_copy_send(port)`.
pub fn ipc_port_copy_send(ports: &mut Vec<ipc_port>, p: u32) -> (r: u32)
    requires
        p != 0 && p != IO_DEAD ==> p < old(ports).len(),
        p != 0 && p != IO_DEAD && old(ports)[p as int].ip_active ==>
            old(ports)[p as int].ip_srights < u32::MAX && old(ports)[p as int].ip_references < u32::MAX,
    ensures
        final(ports).len() == old(ports).len(),
        forall|space: ipc_space, acts: Vec<IpcAction>|
            (r, #[trigger] sst(space, *final(ports), acts)) == copy_send_spec(sst(space, *old(ports), acts), p),
{
    if p == 0 || p == IO_DEAD {
        return p;
    }
    let pi = p as usize;
    if !ports[pi].ip_active {
        return IO_DEAD;
    }
    let ghost before = pv(*ports);
    ports[pi].ip_srights = ports[pi].ip_srights + 1;
    ports[pi].ip_references = ports[pi].ip_references + 1;
    proof {
        let q = before[p as int];
        assert(pv(*ports) =~= before.update(p as int, PortModel {
            srights: (q.srights + 1) as u32, references: (q.references + 1) as u32, ..q }));
    }
    p
}

/// `ipc_port_release_sonce`: a send-once right of the port goes away.
pub open spec fn release_sonce_spec(s: SState, p: u32) -> SState {
    let q = s.ports[p as int];
    let q1 = PortModel { sorights: (q.sorights - 1) as u32, references: (q.references - 1) as u32, ..q };
    SState {
        ports: s.ports.update(p as int, q1),
        acts: s.acts + crate::ipc_right::release_actions(p, q.references),
        ..s
    }
}

/// `ipc_port_release_sonce(port)`.
pub fn ipc_port_release_sonce(ports: &mut Vec<ipc_port>, p: u32, acts: &mut Vec<IpcAction>)
    requires
        p < old(ports).len(),
        old(ports)[p as int].ip_sorights > 0,
        old(ports)[p as int].ip_references > 0,
    ensures
        final(ports).len() == old(ports).len(),
        forall|space: ipc_space| #[trigger] sst(space, *final(ports), *final(acts))
            == release_sonce_spec(sst(space, *old(ports), *old(acts)), p),
{
    let pi = p as usize;
    ports[pi].ip_sorights = ports[pi].ip_sorights - 1;
    let ghost mid = pv(*ports);
    ipc_port_release(ports, p, acts);
    proof {
        let q = pv(*old(ports))[p as int];
        assert(pv(*ports) =~= pv(*old(ports)).update(p as int, PortModel {
            sorights: (q.sorights - 1) as u32, references: (q.references - 1) as u32, ..q }));
    }
}

/// `ipc_object_copyin_type`: the type a right has once in a message.
pub open spec fn copyin_type_spec(t: u32) -> u32 {
    if t == MACH_MSG_TYPE_MOVE_RECEIVE {
        MACH_MSG_TYPE_PORT_RECEIVE
    } else if t == MACH_MSG_TYPE_MOVE_SEND_ONCE || t == MACH_MSG_TYPE_MAKE_SEND_ONCE {
        MACH_MSG_TYPE_PORT_SEND_ONCE
    } else if t == MACH_MSG_TYPE_MOVE_SEND || t == MACH_MSG_TYPE_MAKE_SEND || t == MACH_MSG_TYPE_COPY_SEND {
        MACH_MSG_TYPE_PORT_SEND
    } else {
        0
    }
}

/// `ipc_object_copyin_type(msgt_name)`.
pub fn ipc_object_copyin_type(t: mach_msg_type_name_t) -> (r: mach_msg_type_name_t)
    ensures
        r == copyin_type_spec(t),
{
    if t == MACH_MSG_TYPE_MOVE_RECEIVE {
        MACH_MSG_TYPE_PORT_RECEIVE
    } else if t == MACH_MSG_TYPE_MOVE_SEND_ONCE || t == MACH_MSG_TYPE_MAKE_SEND_ONCE {
        MACH_MSG_TYPE_PORT_SEND_ONCE
    } else if t == MACH_MSG_TYPE_MOVE_SEND || t == MACH_MSG_TYPE_MAKE_SEND || t == MACH_MSG_TYPE_COPY_SEND {
        MACH_MSG_TYPE_PORT_SEND
    } else {
        0
    }
}

/// An entry left without a right goes back to the space (`ipc_entry_dealloc`).
pub open spec fn dealloc_if_none(s: SState, i: int) -> SState {
    if in_use(s.entries[i]) { s } else { SState { entries: s.entries.update(i, freed(s.entries[i])), ..s } }
}

pub(crate) fn entry_dealloc_if_none(space: &mut ipc_space, idx: usize)
    requires
        idx < old(space).is_entries.len(),
    ensures
        forall|ports: Vec<ipc_port>, acts: Vec<IpcAction>| #[trigger] sst(*final(space), ports, acts)
            == dealloc_if_none(sst(*old(space), ports, acts), idx as int),
        final(space).is_active == old(space).is_active,
        final(space).is_id == old(space).is_id,
        final(space).is_entries.len() == old(space).is_entries.len(),
{
    let e = get_entry(space, idx);
    if crate::ipc_right::ie_bits_type(e.ie_bits) == crate::mach_types::MACH_PORT_TYPE_NONE {
        set_entry(space, idx, ipc_entry { ie_name: e.ie_name, ie_bits: 0, ie_object: 0, ie_request: 0 });
    }
    proof {
        assert forall|ports: Vec<ipc_port>, acts: Vec<IpcAction>| #[trigger] sst(*space, ports, acts)
            == dealloc_if_none(sst(*old(space), ports, acts), idx as int) by {
            assert(sst(*space, ports, acts).entries =~= dealloc_if_none(sst(*old(space), ports, acts), idx as int).entries);
        }
    }
}

// ─── Steps of the copy-in, on the whole space ─────────────────────

/// `ipc_right_copyin` on entry `i`.
pub open spec fn cin(s: SState, i: int, t: u32, deadok: bool) -> (i32, u32, u32, SState) {
    let r = st_copyin(at(s, i), t, deadok);
    (r.0, r.1, r.2, put(s, i, r.3))
}

/// `ipc_right_copyin_two` on entry `i`.
pub open spec fn cin_two(s: SState, i: int) -> (i32, u32, u32, SState) {
    let r = st_copyin_two(at(s, i));
    (r.0, r.1, r.2, put(s, i, r.3))
}

/// What a copy-in from entry `i` relies on.
pub open spec fn cin_ok(s: SState, i: int) -> bool {
    &&& entry_ok(s.entries[i], s.ports)
    &&& s.entries[i].ie_bits & MACH_PORT_TYPE_PORT_RIGHTS != 0 ==> port_room(s.ports[s.entries[i].ie_object as int])
}

/// What `ipc_port_copy_send` relies on.
pub open spec fn copy_send_ok(s: SState, p: u32) -> bool {
    p != 0 && p != IO_DEAD ==> {
        &&& p < s.ports.len()
        &&& s.ports[p as int].active ==> s.ports[p as int].srights < u32::MAX && s.ports[p as int].references < u32::MAX
    }
}

/// One more reference to port `p` (`ipc_port_reference`).
pub open spec fn sref(s: SState, p: u32) -> SState {
    let q = s.ports[p as int];
    SState { ports: s.ports.update(p as int, PortModel { references: (q.references + 1) as u32, ..q }), ..s }
}

/// One reference fewer to port `p` (`ipc_port_release`).
pub open spec fn srel(s: SState, p: u32) -> SState {
    SState {
        ports: s.ports.update(p as int, released(s.ports[p as int])),
        acts: s.acts + release_actions(p, s.ports[p as int].references),
        ..s
    }
}

/// Work handed on.
pub open spec fn sact(s: SState, a: IpcAction) -> SState {
    SState { acts: s.acts.push(a), ..s }
}

/// Outcome of the name-dependent part: 0 copied in, 1 invalid destination,
/// 2 invalid reply, 3 invalid destination after undoing; then the space,
/// the destination and reply objects, and the ports to tell that a
/// dead-name request of the destination or reply name went away.
pub type Taken = (u32, SState, u32, u32, u32, u32);

pub open spec fn fail(code: u32, s: SState) -> Taken {
    (code, s, 0, 0, 0, 0)
}

/// Destination and reply name the same entry.
pub open spec fn same_spec(s: SState, i: int, dt: u32, rt: u32) -> Taken {
    if !copyin_check_spec(s.entries[i], s.ports, rt) {
        fail(2, s)
    } else if dt == MACH_MSG_TYPE_MOVE_SEND_ONCE || rt == MACH_MSG_TYPE_MOVE_SEND_ONCE {
        fail(1, s)
    } else if dt == MACH_MSG_TYPE_MAKE_SEND || dt == MACH_MSG_TYPE_MAKE_SEND_ONCE
        || rt == MACH_MSG_TYPE_MAKE_SEND || rt == MACH_MSG_TYPE_MAKE_SEND_ONCE {
        let (k1, d, dso, s1) = cin(s, i, dt, false);
        if k1 != KERN_SUCCESS {
            fail(1, s1)
        } else {
            let (k2, rp, rso, s2) = cin(s1, i, rt, true);
            (0, s2, d, rp, dso, rso)
        }
    } else if dt == MACH_MSG_TYPE_COPY_SEND && rt == MACH_MSG_TYPE_COPY_SEND {
        let (k1, d, dso, s1) = cin(s, i, dt, false);
        if k1 != KERN_SUCCESS {
            fail(1, s1)
        } else {
            let (rp, s2) = copy_send_spec(s1, d);
            (0, s2, d, rp, dso, 0)
        }
    } else if dt == MACH_MSG_TYPE_MOVE_SEND && rt == MACH_MSG_TYPE_MOVE_SEND {
        let (k1, d, dso, s1) = cin_two(s, i);
        if k1 != KERN_SUCCESS { fail(1, s1) } else { (0, dealloc_if_none(s1, i), d, d, dso, 0) }
    } else {
        let (k1, d, so, s1) = cin(s, i, MACH_MSG_TYPE_MOVE_SEND, false);
        if k1 != KERN_SUCCESS {
            fail(1, s1)
        } else {
            let (rp, s3) = copy_send_spec(dealloc_if_none(s1, i), d);
            if dt == MACH_MSG_TYPE_MOVE_SEND { (0, s3, d, rp, so, 0) } else { (0, s3, d, rp, 0, so) }
        }
    }
}

pub open spec fn same_ok(s: SState, i: int, dt: u32, rt: u32) -> bool {
    &&& entry_ok(s.entries[i], s.ports)
    &&& if !copyin_check_spec(s.entries[i], s.ports, rt) {
        true
    } else if dt == MACH_MSG_TYPE_MOVE_SEND_ONCE || rt == MACH_MSG_TYPE_MOVE_SEND_ONCE {
        true
    } else if dt == MACH_MSG_TYPE_MAKE_SEND || dt == MACH_MSG_TYPE_MAKE_SEND_ONCE
        || rt == MACH_MSG_TYPE_MAKE_SEND || rt == MACH_MSG_TYPE_MAKE_SEND_ONCE {
        let (k1, d, dso, s1) = cin(s, i, dt, false);
        cin_ok(s, i) && (k1 == KERN_SUCCESS ==> cin_ok(s1, i))
    } else if dt == MACH_MSG_TYPE_COPY_SEND && rt == MACH_MSG_TYPE_COPY_SEND {
        let (k1, d, dso, s1) = cin(s, i, dt, false);
        cin_ok(s, i) && (k1 == KERN_SUCCESS ==> copy_send_ok(s1, d))
    } else if dt == MACH_MSG_TYPE_MOVE_SEND && rt == MACH_MSG_TYPE_MOVE_SEND {
        cin_ok(s, i)
    } else {
        let (k1, d, so, s1) = cin(s, i, MACH_MSG_TYPE_MOVE_SEND, false);
        cin_ok(s, i) && (k1 == KERN_SUCCESS ==> copy_send_ok(dealloc_if_none(s1, i), d))
    }
}

/// The reply name is null or dead: only the destination is copied in.
pub open spec fn noreply_spec(s: SState, i: int, dt: u32, reply_name: u32) -> Taken {
    let (k1, d, dso, s1) = cin(s, i, dt, false);
    if k1 != KERN_SUCCESS {
        fail(1, s1)
    } else {
        (0, dealloc_if_none(s1, i), d, if reply_name == MACH_PORT_NAME_NULL { 0 } else { IO_DEAD }, dso, 0)
    }
}

/// What `ipc_right_copyin_undo` on entry `i` relies on.
pub open spec fn undo_ok(s: SState, i: int, object: u32, soright: u32) -> bool {
    let e = s.entries[i];
    let t = ie_type(e.ie_bits);
    &&& (t == MACH_PORT_TYPE_DEAD_NAME || (soright == 0 && t != MACH_PORT_TYPE_NONE)) ==> ie_urefs(e.ie_bits) + 2 <= MACH_PORT_UREFS_MAX
    &&& soright == 0 && t != MACH_PORT_TYPE_NONE && t != MACH_PORT_TYPE_DEAD_NAME ==> {
        &&& e.ie_object == object
        &&& check_ok(e, s.ports)
        &&& (!s.ports[object as int].active ==> s.ports[object as int].references > 1)
    }
    &&& object != IO_DEAD ==> object < s.ports.len() && s.ports[object as int].references > 0
}

/// The port timestamps say the destination died before the reply port:
/// the message must not go.
pub open spec fn must_undo(s: SState, d: u32, saved: u32) -> bool {
    !s.ports[d as int].active
        && ((s.ports[d as int].timestamp as i32).wrapping_sub(s.ports[saved as int].timestamp as i32) < 0)
}

/// Destination and reply name different entries.
pub open spec fn general_spec(s: SState, di: int, ri: int, dt: u32, rt: u32, dest_name: u32) -> Taken {
    if !copyin_check_spec(s.entries[ri], s.ports, rt) {
        fail(2, s)
    } else {
        let (k1, d, dso, s1) = cin(s, di, dt, false);
        if k1 != KERN_SUCCESS {
            fail(1, s1)
        } else {
            let saved = s1.entries[ri].ie_object;
            let s2 = if saved != 0 { sref(s1, saved) } else { s1 };
            let (k2, rp, rso, s3) = cin(s2, ri, rt, true);
            if saved != 0 && rp == IO_DEAD && must_undo(s3, d, saved) {
                let t1 = put(s3, di, st_copyin_undo(at(s3, di), dt, d, dso));
                let t2 = put(t1, ri, st_copyin_undo(at(t1, ri), rt, rp, rso));
                let t3 = if dso != 0 { sact(t2, IpcAction::NotifyDeadName { notify: dso, name: dest_name }) } else { t2 };
                fail(3, srel(t3, saved))
            } else {
                let s5 = dealloc_if_none(dealloc_if_none(s3, ri), di);
                (0, if saved != 0 { srel(s5, saved) } else { s5 }, d, rp, dso, rso)
            }
        }
    }
}

pub open spec fn general_ok(s: SState, di: int, ri: int, dt: u32, rt: u32) -> bool {
    &&& entry_ok(s.entries[ri], s.ports)
    &&& copyin_check_spec(s.entries[ri], s.ports, rt) ==> {
        let (k1, d, dso, s1) = cin(s, di, dt, false);
        &&& cin_ok(s, di)
        &&& k1 == KERN_SUCCESS ==> {
            let saved = s1.entries[ri].ie_object;
            let s2 = if saved != 0 { sref(s1, saved) } else { s1 };
            let (k2, rp, rso, s3) = cin(s2, ri, rt, true);
            &&& saved != 0 ==> saved < s1.ports.len() && s1.ports[saved as int].references < u32::MAX
            &&& cin_ok(s2, ri)
            &&& d < s3.ports.len()
            &&& if saved != 0 && rp == IO_DEAD && must_undo(s3, d, saved) {
                let t1 = put(s3, di, st_copyin_undo(at(s3, di), dt, d, dso));
                let t2 = put(t1, ri, st_copyin_undo(at(t1, ri), rt, rp, rso));
                &&& undo_ok(s3, di, d, dso)
                &&& undo_ok(t1, ri, rp, rso)
                &&& t2.ports[saved as int].references > 0
            } else {
                let s5 = dealloc_if_none(dealloc_if_none(s3, ri), di);
                saved != 0 ==> s5.ports[saved as int].references > 0
            }
        }
    }
}

/// Notifications for the dead-name requests the copy-in took away, except
/// that a request whose notification would go to `notify_port` is simply
/// dropped.
pub open spec fn finish_spec(s: SState, notify: u32, notify_port: u32, dest_name: u32, reply_name: u32, dso: u32, rso: u32) -> SState {
    let (dso2, s1) = if notify != MACH_PORT_NAME_NULL && dso == notify_port { (0u32, release_sonce_spec(s, dso)) } else { (dso, s) };
    let s2 = if dso2 != 0 { sact(s1, IpcAction::NotifyPortDeleted { notify: dso2, name: dest_name }) } else { s1 };
    if rso != 0 { sact(s2, IpcAction::NotifyPortDeleted { notify: rso, name: reply_name }) } else { s2 }
}

pub open spec fn finish_ok(s: SState, notify: u32, notify_port: u32, dso: u32) -> bool {
    notify != MACH_PORT_NAME_NULL && dso == notify_port ==> {
        &&& dso < s.ports.len()
        &&& s.ports[dso as int].sorights > 0
        &&& s.ports[dso as int].references > 0
    }
}

/// The message types of the header's destination and reply.
pub open spec fn hdr_types(bits: u32) -> (u32, u32) {
    let mbits = bits & !0x4000_0000u32;
    (mbits & 0xff, (mbits & 0xff00) >> 8u32)
}

/// Is the header well formed: a send kind for the destination, and a send
/// kind for the reply exactly when there is a reply name?
pub open spec fn hdr_valid(bits: u32, reply_name: u32) -> bool {
    let (dt, rt) = hdr_types(bits);
    &&& 17 <= dt <= 21
    &&& !(rt == 0 && reply_name != MACH_PORT_NAME_NULL)
    &&& !(rt != 0 && !(17 <= rt <= 21))
}

/// Is `notify` unusable (named, but not a receive right of the space)?
pub open spec fn bad_notify(s: SState, notify: u32) -> bool {
    notify != MACH_PORT_NAME_NULL && match lookup_in(s.entries, notify) {
        None => true,
        Some(i) => s.entries[i].ie_bits & MACH_PORT_TYPE_RECEIVE == 0,
    }
}

/// The name-dependent part of the copy-in.
pub open spec fn taken_spec(s: SState, dt: u32, rt: u32, dest_name: u32, reply_name: u32) -> Taken {
    if dest_name == reply_name {
        match lookup_in(s.entries, dest_name) {
            None => fail(1, s),
            Some(i) => same_spec(s, i, dt, rt),
        }
    } else if !(reply_name != MACH_PORT_NAME_NULL && reply_name != MACH_PORT_NAME_DEAD) {
        match lookup_in(s.entries, dest_name) {
            None => fail(1, s),
            Some(i) => noreply_spec(s, i, dt, reply_name),
        }
    } else {
        match lookup_in(s.entries, dest_name) {
            None => fail(1, s),
            Some(di) => match lookup_in(s.entries, reply_name) {
                None => fail(2, s),
                Some(ri) => general_spec(s, di, ri, dt, rt, dest_name),
            },
        }
    }
}

pub open spec fn taken_ok(s: SState, dt: u32, rt: u32, dest_name: u32, reply_name: u32) -> bool {
    if dest_name == reply_name {
        match lookup_in(s.entries, dest_name) {
            None => true,
            Some(i) => rt != 0 && same_ok(s, i, dt, rt),
        }
    } else if !(reply_name != MACH_PORT_NAME_NULL && reply_name != MACH_PORT_NAME_DEAD) {
        match lookup_in(s.entries, dest_name) {
            None => true,
            Some(i) => cin_ok(s, i),
        }
    } else {
        match lookup_in(s.entries, dest_name) {
            None => true,
            Some(di) => match lookup_in(s.entries, reply_name) {
                None => true,
                Some(ri) => general_ok(s, di, ri, dt, rt),
            },
        }
    }
}

/// The port of the notify name (a receive right).
pub open spec fn notify_port_of(s: SState, notify: u32) -> u32 {
    if notify == MACH_PORT_NAME_NULL {
        0
    } else {
        match lookup_in(s.entries, notify) { Some(i) => s.entries[i].ie_object, None => 0 }
    }
}

/// `ipc_kmsg_copyin_header`: the return code, the space afterwards, and the
/// header's bits, destination and reply after the copy-in (unchanged on
/// failure).
pub open spec fn copyin_header_spec(s: SState, active: bool, bits: u32, dest_name: u32, reply_name: u32, notify: u32)
    -> (i32, SState, u32, u32, u32)
{
    let (dt, rt) = hdr_types(bits);
    if !hdr_valid(bits, reply_name) {
        (MACH_SEND_INVALID_HEADER, s, bits, dest_name, reply_name)
    } else if !active {
        (MACH_SEND_INVALID_DEST, s, bits, dest_name, reply_name)
    } else if bad_notify(s, notify) {
        (MACH_SEND_INVALID_NOTIFY, s, bits, dest_name, reply_name)
    } else {
        let r = taken_spec(s, dt, rt, dest_name, reply_name);
        if r.0 == 1 || r.0 == 3 {
            (MACH_SEND_INVALID_DEST, r.1, bits, dest_name, reply_name)
        } else if r.0 == 2 {
            (MACH_SEND_INVALID_REPLY, r.1, bits, dest_name, reply_name)
        } else {
            let mbits = bits & !0x4000_0000u32;
            (
                MACH_MSG_SUCCESS,
                finish_spec(r.1, notify, notify_port_of(s, notify), dest_name, reply_name, r.4, r.5),
                (mbits & !0xffffu32) | (copyin_type_spec(dt) | (copyin_type_spec(rt) << 8u32)),
                r.2,
                r.3,
            )
        }
    }
}

/// `ipc_kmsg_copyin_header` does not panic.
pub open spec fn copyin_header_ok(s: SState, active: bool, bits: u32, dest_name: u32, reply_name: u32, notify: u32) -> bool {
    let (dt, rt) = hdr_types(bits);
    hdr_valid(bits, reply_name) && active && !bad_notify(s, notify) ==> {
        let r = taken_spec(s, dt, rt, dest_name, reply_name);
        &&& taken_ok(s, dt, rt, dest_name, reply_name)
        &&& r.0 == 0 ==> finish_ok(r.1, notify, notify_port_of(s, notify), r.4)
    }
}

/// A header with no reply and no notify name can always be copied in
/// from a consistent space whose ports have room in their counters: what
/// `ipc_kmsg_copyin_header` relies on then follows.
pub proof fn lemma_copyin_header_ok_no_reply(space: ipc_space, ports: Seq<PortModel>, acts: Seq<IpcAction>,
    bits: u32, dest_name: u32)
    requires
        space_ok(space, ports),
        forall|p: int| 0 <= p < ports.len() ==> port_room(#[trigger] ports[p]),
    ensures
        copyin_header_ok(SState { entries: space.is_entries@, ports, acts }, space.is_active, bits, dest_name,
            MACH_PORT_NAME_NULL, MACH_PORT_NAME_NULL),
{
    let s = SState { entries: space.is_entries@, ports, acts };
    if let Some(i) = lookup_in(s.entries, dest_name) {
        assert(in_use(space.is_entries[i]));
        if s.entries[i].ie_bits & MACH_PORT_TYPE_PORT_RIGHTS != 0 {
            assert(0 < s.entries[i].ie_object < ports.len());
            assert(port_room(ports[s.entries[i].ie_object as int]));
        }
        if dest_name == MACH_PORT_NAME_NULL {
            assert(space.is_entries[i].ie_name != MACH_PORT_NAME_NULL);
        }
    }
}

// ─── The copy-in ───────────────────────────────────────────────────

pub(crate) fn copyin_at(space: &mut ipc_space, idx: usize, ports: &mut Vec<ipc_port>, acts: &mut Vec<IpcAction>, t: u32, deadok: bool)
    -> (r: (i32, u32, u32))
    requires
        old(space).is_active,
        idx < old(space).is_entries.len(),
        MACH_MSG_TYPE_MOVE_RECEIVE <= t <= MACH_MSG_TYPE_MAKE_SEND_ONCE,
        cin_ok(sst(*old(space), *old(ports), *old(acts)), idx as int),
    ensures
        (r.0, r.1, r.2, sst(*final(space), *final(ports), *final(acts)))
            == cin(sst(*old(space), *old(ports), *old(acts)), idx as int, t, deadok),
        final(space).is_active == old(space).is_active,
        final(space).is_id == old(space).is_id,
        final(space).is_entries.len() == old(space).is_entries.len(),
        final(ports).len() == old(ports).len(),
{
    let ghost s0 = sst(*space, *ports, *acts);
    let r = ipc_right_copyin(space, idx, ports, acts, t, deadok);
    proof {
        lemma_put(*old(space), *space, idx, *old(ports), *ports, *old(acts), *acts, st_copyin(at(s0, idx as int), t, deadok).3);
    }
    r
}

fn copyin_two_at(space: &mut ipc_space, idx: usize, ports: &mut Vec<ipc_port>, acts: &mut Vec<IpcAction>)
    -> (r: (i32, u32, u32))
    requires
        old(space).is_active,
        idx < old(space).is_entries.len(),
        cin_ok(sst(*old(space), *old(ports), *old(acts)), idx as int),
    ensures
        (r.0, r.1, r.2, sst(*final(space), *final(ports), *final(acts)))
            == cin_two(sst(*old(space), *old(ports), *old(acts)), idx as int),
        final(space).is_active == old(space).is_active,
        final(space).is_id == old(space).is_id,
        final(space).is_entries.len() == old(space).is_entries.len(),
        final(ports).len() == old(ports).len(),
{
    let ghost s0 = sst(*space, *ports, *acts);
    let r = ipc_right_copyin_two(space, idx, ports, acts);
    proof {
        lemma_put(*old(space), *space, idx, *old(ports), *ports, *old(acts), *acts, st_copyin_two(at(s0, idx as int)).3);
    }
    r
}

fn undo_at(space: &mut ipc_space, idx: usize, ports: &mut Vec<ipc_port>, acts: &mut Vec<IpcAction>, t: u32, object: u32, soright: u32)
    requires
        old(space).is_active,
        idx < old(space).is_entries.len(),
        undo_ok(sst(*old(space), *old(ports), *old(acts)), idx as int, object, soright),
    ensures
        sst(*final(space), *final(ports), *final(acts))
            == put(sst(*old(space), *old(ports), *old(acts)), idx as int,
                st_copyin_undo(at(sst(*old(space), *old(ports), *old(acts)), idx as int), t, object, soright)),
        final(space).is_active == old(space).is_active,
        final(space).is_id == old(space).is_id,
        final(space).is_entries.len() == old(space).is_entries.len(),
        final(ports).len() == old(ports).len(),
{
    let ghost s0 = sst(*space, *ports, *acts);
    ipc_right_copyin_undo(space, idx, ports, acts, t, object, soright);
    proof {
        lemma_put(*old(space), *space, idx, *old(ports), *ports, *old(acts), *acts,
            st_copyin_undo(at(s0, idx as int), t, object, soright));
    }
}

pub(crate) fn port_reference(ports: &mut Vec<ipc_port>, p: u32)
    requires
        p < old(ports).len(),
        old(ports)[p as int].ip_references < u32::MAX,
    ensures
        final(ports).len() == old(ports).len(),
        forall|space: ipc_space, acts: Vec<IpcAction>| #[trigger] sst(space, *final(ports), acts)
            == sref(sst(space, *old(ports), acts), p),
{
    let pi = p as usize;
    ports[pi].ip_references = ports[pi].ip_references + 1;
    proof {
        let q = pv(*old(ports))[p as int];
        assert(pv(*ports) =~= pv(*old(ports)).update(p as int, PortModel { references: (q.references + 1) as u32, ..q }));
    }
}

pub(crate) fn port_release(ports: &mut Vec<ipc_port>, p: u32, acts: &mut Vec<IpcAction>)
    requires
        p < old(ports).len(),
        old(ports)[p as int].ip_references > 0,
    ensures
        final(ports).len() == old(ports).len(),
        forall|space: ipc_space| #[trigger] sst(space, *final(ports), *final(acts))
            == srel(sst(space, *old(ports), *old(acts)), p),
{
    ipc_port_release(ports, p, acts);
}

/// Destination and reply name the same entry.
fn hdr_same(space: &mut ipc_space, ports: &mut Vec<ipc_port>, acts: &mut Vec<IpcAction>, i: usize, dt: u32, rt: u32)
    -> (r: (u32, u32, u32, u32, u32))
    requires
        old(space).is_active,
        i < old(space).is_entries.len(),
        MACH_MSG_TYPE_MOVE_SEND <= dt <= MACH_MSG_TYPE_MAKE_SEND_ONCE,
        MACH_MSG_TYPE_MOVE_SEND <= rt <= MACH_MSG_TYPE_MAKE_SEND_ONCE,
        same_ok(sst(*old(space), *old(ports), *old(acts)), i as int, dt, rt),
    ensures
        (r.0, sst(*final(space), *final(ports), *final(acts)), r.1, r.2, r.3, r.4)
            == same_spec(sst(*old(space), *old(ports), *old(acts)), i as int, dt, rt),
        final(space).is_active == old(space).is_active,
        final(space).is_id == old(space).is_id,
        final(space).is_entries.len() == old(space).is_entries.len(),
{
    if !ipc_right_copyin_check(space, i, ports, rt) {
        return (2, 0, 0, 0, 0);
    }
    if dt == MACH_MSG_TYPE_MOVE_SEND_ONCE || rt == MACH_MSG_TYPE_MOVE_SEND_ONCE {
        return (1, 0, 0, 0, 0);
    }
    if dt == MACH_MSG_TYPE_MAKE_SEND || dt == MACH_MSG_TYPE_MAKE_SEND_ONCE
        || rt == MACH_MSG_TYPE_MAKE_SEND || rt == MACH_MSG_TYPE_MAKE_SEND_ONCE {
        let (k1, d, dso) = copyin_at(space, i, ports, acts, dt, false);
        if k1 != KERN_SUCCESS {
            return (1, 0, 0, 0, 0);
        }
        let (_k2, rp, rso) = copyin_at(space, i, ports, acts, rt, true);
        (0, d, rp, dso, rso)
    } else if dt == MACH_MSG_TYPE_COPY_SEND && rt == MACH_MSG_TYPE_COPY_SEND {
        let (k1, d, dso) = copyin_at(space, i, ports, acts, dt, false);
        if k1 != KERN_SUCCESS {
            return (1, 0, 0, 0, 0);
        }
        let rp = ipc_port_copy_send(ports, d);
        (0, d, rp, dso, 0)
    } else if dt == MACH_MSG_TYPE_MOVE_SEND && rt == MACH_MSG_TYPE_MOVE_SEND {
        let (k1, d, dso) = copyin_two_at(space, i, ports, acts);
        if k1 != KERN_SUCCESS {
            return (1, 0, 0, 0, 0);
        }
        entry_dealloc_if_none(space, i);
        (0, d, d, dso, 0)
    } else {
        let (k1, d, so) = copyin_at(space, i, ports, acts, MACH_MSG_TYPE_MOVE_SEND, false);
        if k1 != KERN_SUCCESS {
            return (1, 0, 0, 0, 0);
        }
        entry_dealloc_if_none(space, i);
        let rp = ipc_port_copy_send(ports, d);
        if dt == MACH_MSG_TYPE_MOVE_SEND { (0, d, rp, so, 0) } else { (0, d, rp, 0, so) }
    }
}

/// The reply name is null or dead.
fn hdr_noreply(space: &mut ipc_space, ports: &mut Vec<ipc_port>, acts: &mut Vec<IpcAction>, i: usize, dt: u32, reply_name: u32)
    -> (r: (u32, u32, u32, u32, u32))
    requires
        old(space).is_active,
        i < old(space).is_entries.len(),
        MACH_MSG_TYPE_MOVE_SEND <= dt <= MACH_MSG_TYPE_MAKE_SEND_ONCE,
        !(reply_name != MACH_PORT_NAME_NULL && reply_name != MACH_PORT_NAME_DEAD),
        cin_ok(sst(*old(space), *old(ports), *old(acts)), i as int),
    ensures
        (r.0, sst(*final(space), *final(ports), *final(acts)), r.1, r.2, r.3, r.4)
            == noreply_spec(sst(*old(space), *old(ports), *old(acts)), i as int, dt, reply_name),
        final(space).is_active == old(space).is_active,
        final(space).is_id == old(space).is_id,
        final(space).is_entries.len() == old(space).is_entries.len(),
{
    let (k1, d, dso) = copyin_at(space, i, ports, acts, dt, false);
    if k1 != KERN_SUCCESS {
        return (1, 0, 0, 0, 0);
    }
    entry_dealloc_if_none(space, i);
    let rp = if reply_name == MACH_PORT_NAME_NULL { 0 } else { IO_DEAD };
    (0, d, rp, dso, 0)
}

/// Destination and reply name different entries.
fn hdr_general(space: &mut ipc_space, ports: &mut Vec<ipc_port>, acts: &mut Vec<IpcAction>, di: usize, ri: usize,
    dt: u32, rt: u32, dest_name: u32)
    -> (r: (u32, u32, u32, u32, u32))
    requires
        old(space).is_active,
        di < old(space).is_entries.len(),
        ri < old(space).is_entries.len(),
        MACH_MSG_TYPE_MOVE_SEND <= dt <= MACH_MSG_TYPE_MAKE_SEND_ONCE,
        MACH_MSG_TYPE_MOVE_SEND <= rt <= MACH_MSG_TYPE_MAKE_SEND_ONCE,
        general_ok(sst(*old(space), *old(ports), *old(acts)), di as int, ri as int, dt, rt),
    ensures
        (r.0, sst(*final(space), *final(ports), *final(acts)), r.1, r.2, r.3, r.4)
            == general_spec(sst(*old(space), *old(ports), *old(acts)), di as int, ri as int, dt, rt, dest_name),
        final(space).is_active == old(space).is_active,
        final(space).is_id == old(space).is_id,
        final(space).is_entries.len() == old(space).is_entries.len(),
{
    let ghost s0 = sst(*space, *ports, *acts);
    if !ipc_right_copyin_check(space, ri, ports, rt) {
        return (2, 0, 0, 0, 0);
    }
    let (k1, d, dso) = copyin_at(space, di, ports, acts, dt, false);
    if k1 != KERN_SUCCESS {
        return (1, 0, 0, 0, 0);
    }
    let saved = space.is_entries[ri].ie_object;
    if saved != 0 {
        port_reference(ports, saved);
    }
    let (_k2, rp, rso) = copyin_at(space, ri, ports, acts, rt, true);
    if saved != 0 && rp == IO_DEAD {
        let timestamp = ports[saved as usize].ip_timestamp;
        let undo = !ports[d as usize].ip_active && ip_timestamp_order(ports[d as usize].ip_timestamp, timestamp);
        if undo {
            undo_at(space, di, ports, acts, dt, d, dso);
            undo_at(space, ri, ports, acts, rt, rp, rso);
            if dso != 0 {
                acts.push(IpcAction::NotifyDeadName { notify: dso, name: dest_name });
            }
            port_release(ports, saved, acts);
            return (3, 0, 0, 0, 0);
        }
    }
    entry_dealloc_if_none(space, ri);
    entry_dealloc_if_none(space, di);
    if saved != 0 {
        port_release(ports, saved, acts);
    }
    (0, d, rp, dso, rso)
}

/// The name-dependent part of the copy-in.
fn hdr_taken(space: &mut ipc_space, ports: &mut Vec<ipc_port>, acts: &mut Vec<IpcAction>, dt: u32, rt: u32,
    dest_name: u32, reply_name: u32)
    -> (r: (u32, u32, u32, u32, u32))
    requires
        old(space).is_active,
        names_unique(*old(space)),
        MACH_MSG_TYPE_MOVE_SEND <= dt <= MACH_MSG_TYPE_MAKE_SEND_ONCE,
        rt == 0 || MACH_MSG_TYPE_MOVE_SEND <= rt <= MACH_MSG_TYPE_MAKE_SEND_ONCE,
        rt == 0 ==> reply_name == MACH_PORT_NAME_NULL,
        taken_ok(sst(*old(space), *old(ports), *old(acts)), dt, rt, dest_name, reply_name),
    ensures
        (r.0, sst(*final(space), *final(ports), *final(acts)), r.1, r.2, r.3, r.4)
            == taken_spec(sst(*old(space), *old(ports), *old(acts)), dt, rt, dest_name, reply_name),
        final(space).is_active == old(space).is_active,
        final(space).is_id == old(space).is_id,
{
    if dest_name == reply_name {
        match ipc_entry_lookup(space, dest_name) {
            None => (1, 0, 0, 0, 0),
            Some(i) => hdr_same(space, ports, acts, i, dt, rt),
        }
    } else if !mach_port_name_valid(reply_name) {
        match ipc_entry_lookup(space, dest_name) {
            None => (1, 0, 0, 0, 0),
            Some(i) => hdr_noreply(space, ports, acts, i, dt, reply_name),
        }
    } else {
        match ipc_entry_lookup(space, dest_name) {
            None => (1, 0, 0, 0, 0),
            Some(di) => match ipc_entry_lookup(space, reply_name) {
                None => (2, 0, 0, 0, 0),
                Some(ri) => hdr_general(space, ports, acts, di, ri, dt, rt, dest_name),
            },
        }
    }
}

/// Hand on the notifications of the dead-name requests the copy-in took.
fn hdr_finish(ports: &mut Vec<ipc_port>, acts: &mut Vec<IpcAction>, notify: u32, notify_port: u32,
    dest_name: u32, reply_name: u32, dso: u32, rso: u32)
    requires
        notify != MACH_PORT_NAME_NULL && dso == notify_port ==> {
            &&& dso < old(ports).len()
            &&& old(ports)[dso as int].ip_sorights > 0
            &&& old(ports)[dso as int].ip_references > 0
        },
    ensures
        forall|space: ipc_space| #[trigger] sst(space, *final(ports), *final(acts))
            == finish_spec(sst(space, *old(ports), *old(acts)), notify, notify_port, dest_name, reply_name, dso, rso),
{
    let mut d = dso;
    if notify != MACH_PORT_NAME_NULL && d == notify_port {
        ipc_port_release_sonce(ports, d, acts);
        d = 0;
    }
    let ghost mid = *acts;
    let ghost midp = *ports;
    if d != 0 {
        acts.push(IpcAction::NotifyPortDeleted { notify: d, name: dest_name });
    }
    if rso != 0 {
        acts.push(IpcAction::NotifyPortDeleted { notify: rso, name: reply_name });
    }
    proof {
        assert forall|space: ipc_space| #[trigger] sst(space, *ports, *acts)
            == finish_spec(sst(space, *old(ports), *old(acts)), notify, notify_port, dest_name, reply_name, dso, rso) by {
            let s_old = sst(space, *old(ports), *old(acts));
            let s1 = sst(space, midp, mid);
            if notify != MACH_PORT_NAME_NULL && dso == notify_port {
                assert(s1 == release_sonce_spec(s_old, dso));
            } else {
                assert(s1 == s_old);
            }
            assert(sst(space, *ports, *acts) =~= finish_spec(s_old, notify, notify_port, dest_name, reply_name, dso, rso));
        }
    }
}

/// `ipc_kmsg_copyin_header(msg, space, notify)`: check the header of a
/// message being sent and copy its destination and reply rights in from
/// `space`, replacing their names by the objects they carry; `notify`, when
/// not null, names a receive right of the space whose port no dead-name
/// notification is sent to.  The common cases (a plain send, a request
/// with a reply, a reply) are handled by the same general path here, which
/// gives them the same result.
pub fn ipc_kmsg_copyin_header(
    msg: &mut mach_msg_header_t,
    space: &mut ipc_space,
    ports: &mut Vec<ipc_port>,
    acts: &mut Vec<IpcAction>,
    notify: mach_port_name_t,
) -> (mr: mach_msg_return_t)
    requires
        names_unique(*old(space)),
        copyin_header_ok(sst(*old(space), *old(ports), *old(acts)), old(space).is_active, old(msg).msgh_bits,
            old(msg).msgh_remote_port, old(msg).msgh_local_port, notify),
    ensures
        (mr, sst(*final(space), *final(ports), *final(acts)), final(msg).msgh_bits, final(msg).msgh_remote_port,
            final(msg).msgh_local_port)
            == copyin_header_spec(sst(*old(space), *old(ports), *old(acts)), old(space).is_active, old(msg).msgh_bits,
                old(msg).msgh_remote_port, old(msg).msgh_local_port, notify),
        final(msg).msgh_size == old(msg).msgh_size,
        final(msg).msgh_seqno == old(msg).msgh_seqno,
        final(msg).msgh_id == old(msg).msgh_id,
        final(space).is_active == old(space).is_active,
        final(space).is_id == old(space).is_id,
{
    let ghost s0 = sst(*space, *ports, *acts);
    let mbits = msg.msgh_bits & !MACH_MSGH_BITS_CIRCULAR;
    let dest_name = msg.msgh_remote_port;
    let reply_name = msg.msgh_local_port;
    let dest_type = mbits & 0xff;
    let reply_type = MACH_MSGH_BITS_LOCAL(mbits);
    if !MACH_MSG_TYPE_PORT_ANY_SEND(dest_type) {
        return MACH_SEND_INVALID_HEADER;
    }
    if (reply_type == 0 && reply_name != MACH_PORT_NAME_NULL)
        || (reply_type != 0 && !MACH_MSG_TYPE_PORT_ANY_SEND(reply_type)) {
        return MACH_SEND_INVALID_HEADER;
    }
    if !space.is_active {
        return MACH_SEND_INVALID_DEST;
    }
    let mut notify_port: u32 = 0;
    if notify != MACH_PORT_NAME_NULL {
        match ipc_entry_lookup(space, notify) {
            None => {
                return MACH_SEND_INVALID_NOTIFY;
            },
            Some(i) => {
                let e = get_entry(space, i);
                if e.ie_bits & MACH_PORT_TYPE_RECEIVE == 0 {
                    return MACH_SEND_INVALID_NOTIFY;
                }
                notify_port = e.ie_object;
            },
        }
    }
    let r = hdr_taken(space, ports, acts, dest_type, reply_type, dest_name, reply_name);
    let (outcome, dest_port, reply_port, dest_soright, reply_soright) = r;
    if outcome == 1 || outcome == 3 {
        return MACH_SEND_INVALID_DEST;
    } else if outcome == 2 {
        return MACH_SEND_INVALID_REPLY;
    }
    proof {
        assert(finish_ok(sst(*space, *ports, *acts), notify, notify_port, dest_soright));
    }
    hdr_finish(ports, acts, notify, notify_port, dest_name, reply_name, dest_soright, reply_soright);
    let dt = ipc_object_copyin_type(dest_type);
    let rt = ipc_object_copyin_type(reply_type);
    msg.msgh_bits = MACH_MSGH_BITS_OTHER(mbits) | MACH_MSGH_BITS(dt, rt);
    msg.msgh_remote_port = dest_port;
    msg.msgh_local_port = reply_port;
    MACH_MSG_SUCCESS
}

/// Law: a message sent to a port whose receive right the sender holds,
/// with a right made from it (`MACH_MSG_TYPE_MAKE_SEND` or
/// `MACH_MSG_TYPE_MAKE_SEND_ONCE`) and with no reply or notify name, is
/// copied in (from an entry consistent with its port, whose counters have
/// room).  The result is success; the destination becomes the port and
/// its type the right made (a send or a send-once right); the reply stays
/// null; the port counts the new right and its reference (a send right
/// also in the make-send count); the sender's entries are as they were.
pub proof fn law_copyin_made_right(s: SState, bits: u32, dest_name: u32)
    requires
        dest_name != MACH_PORT_NAME_NULL,
        (bits & 0xff00u32) >> 8u32 == 0,
        bits & 0xffu32 == MACH_MSG_TYPE_MAKE_SEND || bits & 0xffu32 == MACH_MSG_TYPE_MAKE_SEND_ONCE,
        lookup_in(s.entries, dest_name) is Some,
        s.entries[lookup_in(s.entries, dest_name)->0].ie_bits & MACH_PORT_TYPE_RECEIVE != 0,
        cin_ok(s, lookup_in(s.entries, dest_name)->0),
    ensures ({
        let i = lookup_in(s.entries, dest_name)->0;
        let p = s.entries[i].ie_object;
        let q = s.ports[p as int];
        let (mr, s1, out, d, r) = copyin_header_spec(s, true, bits, dest_name, MACH_PORT_NAME_NULL, MACH_PORT_NAME_NULL);
        let so = bits & 0xffu32 == MACH_MSG_TYPE_MAKE_SEND_ONCE;
        &&& mr == MACH_MSG_SUCCESS
        &&& d == p
        &&& r == MACH_PORT_NAME_NULL
        &&& out & 0xffu32 == if so { MACH_MSG_TYPE_PORT_SEND_ONCE } else { MACH_MSG_TYPE_PORT_SEND }
        &&& (out & 0xff00u32) >> 8u32 == 0
        &&& s1.entries == s.entries
        &&& s1.ports[p as int].references == q.references + 1
        &&& so ==> s1.ports[p as int].sorights == q.sorights + 1 && s1.ports[p as int].srights == q.srights
        &&& !so ==> s1.ports[p as int].srights == q.srights + 1 && s1.ports[p as int].mscount == q.mscount + 1
            && s1.ports[p as int].sorights == q.sorights
    }),
{
    let i = lookup_in(s.entries, dest_name)->0;
    let mbits = bits & !0x4000_0000u32;
    let dt = bits & 0xffu32;
    crate::ipc_kmsg_copyout::lemma_header_bits(bits, 0, 0);
    crate::ipc_kmsg_copyout::lemma_header_bits(mbits, copyin_type_spec(dt), 0);
    assert(in_use(s.entries[i]));
    crate::ipc_right::lemma_type_bits(s.entries[i].ie_bits);
    let (k1, d, dso, s1) = cin(s, i, dt, false);
    assert(s1.entries =~= s.entries);
    assert(dealloc_if_none(s1, i) == s1);
    assert(hdr_types(bits) == (dt, 0u32));
    assert(hdr_valid(bits, MACH_PORT_NAME_NULL));
    assert(!bad_notify(s, MACH_PORT_NAME_NULL));
    assert(k1 == KERN_SUCCESS);
    assert(taken_spec(s, dt, 0, dest_name, MACH_PORT_NAME_NULL).0 == 0);
}

} // verus!
