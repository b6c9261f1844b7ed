//! Capabilities held in an IPC space: the state machine of a space's entries
//! (send, receive, send-once, port-set and dead-name rights with their user
//! reference counts) and of the port counters that back them.
//!
//! A space holds its entries in a vector; an entry whose type bits are zero
//! is free (this is how a deallocated entry stays on the space's free list).
//! Ports live in a vector and are named by their index (index 0 stands for
//! no port).  Work that leaves the space and the port counters — sending a
//! notification, destroying a port or a port set, maintaining the reverse
//! map and the msg-accepted requests, freeing an object whose last reference
//! went away — is reported as an `IpcAction`, in the order the kernel does it.

use vstd::prelude::*;
use crate::ipc_port::{
    dn_has_room, dn_registered, dn_table_ok, grow_index, grown_table, ipc_port_dngrow, ipc_port_dnrequest,
    size_step_ok, sizes_ok, table_size,
};
use crate::mach_types::mach_msg_header_t;
use crate::mach_types::{
    boolean_t, KERN_RESOURCE_SHORTAGE,
    ip_timestamp_order, ipc_entry_bits_t, kern_return_t, mach_msg_type_name_t, mach_port_delta_t, mach_port_name_t,
    mach_port_right_t, mach_port_type_t, mach_port_urefs_t, IE_BITS_MAREQUEST, IE_BITS_RIGHT_MASK,
    IE_BITS_TYPE_MASK, IE_BITS_UREFS_MASK, KERN_INVALID_ARGUMENT, KERN_INVALID_NAME,
    KERN_INVALID_RIGHT, KERN_INVALID_TASK, KERN_INVALID_VALUE, KERN_SUCCESS, KERN_UREFS_OVERFLOW,
    MACH_MSG_TYPE_COPY_SEND, MACH_MSG_TYPE_MAKE_SEND, MACH_MSG_TYPE_MAKE_SEND_ONCE,
    MACH_MSG_TYPE_MOVE_RECEIVE, MACH_MSG_TYPE_MOVE_SEND, MACH_MSG_TYPE_MOVE_SEND_ONCE,
    MACH_PORT_NAME_NULL, MACH_PORT_RIGHT_DEAD_NAME, MACH_PORT_RIGHT_NUMBER, MACH_PORT_RIGHT_PORT_SET,
    MACH_PORT_RIGHT_RECEIVE, MACH_PORT_RIGHT_SEND, MACH_PORT_RIGHT_SEND_ONCE,
    MACH_PORT_TYPE_DEAD_NAME, MACH_PORT_TYPE_DNREQUEST, MACH_PORT_TYPE_MAREQUEST,
    MACH_PORT_TYPE_NONE, MACH_PORT_TYPE_PORT_OR_DEAD, MACH_PORT_TYPE_PORT_RIGHTS,
    MACH_PORT_TYPE_PORT_SET, MACH_PORT_TYPE_RECEIVE, MACH_PORT_TYPE_SEND,
    MACH_PORT_TYPE_SEND_ONCE, MACH_PORT_TYPE_SEND_RECEIVE, MACH_PORT_TYPE_SEND_RIGHTS,
    MACH_PORT_UREFS_MAX,
};

verus! {

/// A translation entry: a name of the space, its bits (user references in
/// the low 16 bits, the right type in bits 16..21, the msg-accepted flag in
/// bit 21), the object it names and its dead-name request slot.
#[derive(Clone, Copy, Debug, PartialEq, Eq, Structural)]
pub struct ipc_entry {
    pub ie_name: mach_port_name_t,
    pub ie_bits: ipc_entry_bits_t,
    pub ie_object: u32,
    pub ie_request: u32,
}

/// One slot of a port's dead-name request table.  Slot 0 is the header:
/// its `notify` field is the first free slot.  A free slot has name 0 and
/// links the next free slot in `notify`; a used slot holds the name and the
/// port to notify.
#[derive(Clone, Copy, Debug, PartialEq, Eq, Structural)]
pub struct DnRequest {
    pub name: mach_port_name_t,
    pub notify: u32,
}

/// The state of a port that the rights logic reads and changes.
#[derive(Debug)]
pub struct ipc_port {
    pub ip_active: bool,
    pub ip_references: u32,
    pub ip_srights: u32,
    pub ip_sorights: u32,
    pub ip_mscount: u32,
    pub ip_receiver_name: mach_port_name_t,
    /// Space holding the receive right (0 while the right is in transit).
    pub ip_receiver: u32,
    /// Port this one is queued on while its receive right is in transit.
    pub ip_destination: u32,
    pub ip_nsrequest: u32,
    pub ip_pdrequest: u32,
    /// Whether messages to the port carry its payload in place of a name.
    pub ip_protected_payload: bool,
    /// The payload delivered in place of the port's name.
    pub ip_payload: u32,
    pub ip_timestamp: u32,
    pub ip_dnrequests: Vec<DnRequest>,
    /// The kind of kernel object the port stands for (0 for none).
    pub ip_kotype: u32,
    /// The port set the port belongs to (0 for none).
    pub ip_pset: u32,
    /// Messages queued for the port, and the most it takes before senders
    /// block.
    pub ip_msgcount: u32,
    pub ip_qlimit: u32,
    /// The sequence number the next message received gets.
    pub ip_seqno: u32,
    /// Threads blocked sending to the port, first come first served.
    pub ip_blocked: Vec<u32>,
    /// The port's own message queue (unused while it is in a port set).
    pub ip_messages: ipc_mqueue,
}

/// A message queue: the messages waiting, oldest first, and the threads
/// waiting to receive, first come first served.
#[derive(Debug)]
pub struct ipc_mqueue {
    pub imq_messages: Vec<mach_msg_header_t>,
    pub imq_threads: Vec<u32>,
}

/// A port set: its name, its activity and the queue its ports' messages go
/// to.
#[derive(Debug)]
pub struct ipc_pset {
    pub ips_active: bool,
    pub ips_local_name: mach_port_name_t,
    pub ips_messages: ipc_mqueue,
}

/// A capability space.
#[derive(Debug)]
pub struct ipc_space {
    pub is_active: bool,
    pub is_id: u32,
    pub is_entries: Vec<ipc_entry>,
}

/// Work the rights logic hands on, in order.
#[derive(Clone, Copy, Debug, PartialEq, Eq, Structural)]
pub enum IpcAction {
    NotifyNoSenders { notify: u32, mscount: u32 },
    NotifyPortDeleted { notify: u32, name: u32 },
    NotifySendOnce { port: u32 },
    NotifyDeadName { notify: u32, name: u32 },
    /// Send a msg-accepted notification for entry `name` to `notify`.
    NotifyMsgAccepted { notify: u32, name: u32 },
    /// Destroy the msg-accepted request with this id
    /// (`ipc_marequest_destroy`).
    DestroyMarequest { marequest: u32 },
    /// Clear the receiver of the port and destroy it (consumes a reference).
    DestroyPort { port: u32 },
    /// Destroy the port set (consumes a reference).
    DestroyPortSet { pset: u32 },
    /// Take the port off its port set or wake its receivers: its receive
    /// right left the space.
    ClearReceiver { port: u32 },
    CancelMarequest { name: u32 },
    RenameMarequest { oname: u32, nname: u32 },
    /// The port set's name in the space changed.
    RenamePortSet { pset: u32, name: u32 },
    /// The thread wakes up.
    WakeThread { thread: u32 },
    /// The message is destroyed with the rights it carries.
    DestroyKmsg { msg: mach_msg_header_t },
    /// The message goes to the kernel's object server; its reply is sent on.
    KernelServer { msg: mach_msg_header_t },
    /// Send a port-destroyed notification to `notify`, carrying the
    /// receive right of `port`.
    NotifyPortDestroyed { notify: u32, port: u32 },
    /// The kernel object the port stands for goes away.
    KobjectDestroy { port: u32 },
    ReverseInsert { port: u32, name: u32 },
    ReverseRemove { port: u32 },
    /// The object's last reference is gone.
    FreeObject { object: u32 },
    /// The out-of-line data held by the copy object goes away
    /// (`vm_map_copy_discard`).
    DiscardCopy { copy: u32 },
}

// ─── Bit views ───────────────────────────────────────────────────

pub open spec fn ie_type(bits: u32) -> u32 {
    bits & IE_BITS_TYPE_MASK
}

pub open spec fn ie_urefs(bits: u32) -> u32 {
    bits & IE_BITS_UREFS_MASK
}

/// Adding `delta` user references to `urefs` would pass the maximum.
pub open spec fn urefs_overflow(urefs: u32, delta: i32) -> bool {
    delta > 0 && urefs + delta > MACH_PORT_UREFS_MAX
}

/// Removing `-delta` user references would go below zero.
pub open spec fn urefs_underflow(urefs: u32, delta: i32) -> bool {
    delta < 0 && -delta > urefs
}

/// `IE_BITS_TYPE(bits)`.
pub fn ie_bits_type(bits: u32) -> (r: u32)
    ensures r == ie_type(bits),
{
    bits & IE_BITS_TYPE_MASK
}

/// `IE_BITS_UREFS(bits)`.
pub fn ie_bits_urefs(bits: u32) -> (r: u32)
    ensures r == ie_urefs(bits), r <= 0xffff,
{
    let r = bits & IE_BITS_UREFS_MASK;
    proof { lemma_entry_bits(bits); }
    r
}

/// `MACH_PORT_UREFS_OVERFLOW(urefs, delta)`.
pub fn mach_port_urefs_overflow(urefs: u32, delta: i32) -> (r: bool)
    ensures r == urefs_overflow(urefs, delta),
{
    delta > 0 && (urefs as u64 + delta as u64 > MACH_PORT_UREFS_MAX as u64)
}

/// `MACH_PORT_UREFS_UNDERFLOW(urefs, delta)`.
pub fn mach_port_urefs_underflow(urefs: u32, delta: i32) -> (r: bool)
    ensures r == urefs_underflow(urefs, delta),
{
    delta < 0 && (0i64 - delta as i64) > urefs as i64
}

/// Facts about the entry bit layout.
pub proof fn lemma_entry_bits(bits: u32)
    by (bit_vector)
    ensures
        bits & 0xffffu32 <= 0xffff,
        bits & 0x001f_0000u32 <= 0x001f_0000,
        (bits & 0xffffu32 > 0) ==> bits >= 1,
        (bits & 0xffffu32 > 0) ==> ((bits - 1) as u32 & 0xffffu32) == (bits & 0xffffu32) - 1
            && ((bits - 1) as u32 & 0x001f_0000u32) == bits & 0x001f_0000u32
            && ((bits - 1) as u32 & 0x0020_0000u32) == bits & 0x0020_0000u32,
        (bits & 0xffffu32 < 0xffff) ==> ((bits + 1) as u32 & 0xffffu32) == (bits & 0xffffu32) + 1
            && ((bits + 1) as u32 & 0x001f_0000u32) == bits & 0x001f_0000u32
            && ((bits + 1) as u32 & 0x0020_0000u32) == bits & 0x0020_0000u32
            && bits + 1 <= u32::MAX,
        (bits & !0x0001_ffffu32) & 0xffffu32 == 0,
        (bits & !0x0001_ffffu32) & 0x001f_0000u32 == bits & 0x001e_0000u32,
        ((bits & !0x001f_0000u32) | 0x0010_0000u32) & 0x001f_0000u32 == 0x0010_0000u32,
        ((bits & !0x001f_0000u32) | 0x0010_0000u32) & 0xffffu32 == bits & 0xffffu32,
        (bits & !0x0020_0000u32) & 0xffffu32 == bits & 0xffffu32,
        (bits & !0x0020_0000u32) & 0x001f_0000u32 == bits & 0x001f_0000u32,
        bits & 0xffffu32 <= bits,
        bits - (bits & 0xffffu32) + 0xffff <= 0xFFFF_FFFFu32,
        (bits & 0x001f_0000u32) & 0x0001_0000u32 == bits & 0x0001_0000u32,
        (bits & 0x001f_0000u32) & 0x0002_0000u32 == bits & 0x0002_0000u32,
        (bits & 0x001f_0000u32) & 0x0004_0000u32 == bits & 0x0004_0000u32,
{
}

// ─── Ports ───────────────────────────────────────────────────────

/// The mathematical state of a port.
pub ghost struct PortModel {
    pub active: bool,
    pub references: u32,
    pub srights: u32,
    pub sorights: u32,
    pub mscount: u32,
    pub receiver_name: u32,
    pub receiver: u32,
    pub destination: u32,
    pub nsrequest: u32,
    pub pdrequest: u32,
    pub protected_payload: bool,
    pub payload: u32,
    pub timestamp: u32,
    pub dnrequests: Seq<DnRequest>,
    pub kotype: u32,
    pub pset: u32,
    pub msgcount: u32,
    pub qlimit: u32,
    pub seqno: u32,
    pub blocked: Seq<u32>,
    pub messages: Seq<mach_msg_header_t>,
    pub receivers: Seq<u32>,
}

impl View for ipc_port {
    type V = PortModel;

    open spec fn view(&self) -> PortModel {
        PortModel {
            active: self.ip_active,
            references: self.ip_references,
            srights: self.ip_srights,
            sorights: self.ip_sorights,
            mscount: self.ip_mscount,
            receiver_name: self.ip_receiver_name,
            receiver: self.ip_receiver,
            destination: self.ip_destination,
            nsrequest: self.ip_nsrequest,
            pdrequest: self.ip_pdrequest,
            protected_payload: self.ip_protected_payload,
            payload: self.ip_payload,
            timestamp: self.ip_timestamp,
            dnrequests: self.ip_dnrequests@,
            kotype: self.ip_kotype,
            pset: self.ip_pset,
            msgcount: self.ip_msgcount,
            qlimit: self.ip_qlimit,
            seqno: self.ip_seqno,
            blocked: self.ip_blocked@,
            messages: self.ip_messages.imq_messages@,
            receivers: self.ip_messages.imq_threads@,
        }
    }
}

/// The states of all ports.
pub open spec fn pv(ports: Vec<ipc_port>) -> Seq<PortModel> {
    Seq::new(ports.len() as nat, |i: int| ports[i]@)
}

/// A port with one reference fewer.
pub open spec fn released(p: PortModel) -> PortModel {
    PortModel { references: (p.references - 1) as u32, ..p }
}

/// The actions of dropping one reference of port `p` whose count was `refs`.
pub open spec fn release_actions(p: u32, refs: u32) -> Seq<IpcAction> {
    if refs == 1 { seq![IpcAction::FreeObject { object: p }] } else { seq![] }
}

/// Replace the scalar state of port `p`, keeping its dead-name table.
pub fn set_port(ports: &mut Vec<ipc_port>, p: u32, m: PortScalars)
    requires
        p < old(ports).len(),
    ensures
        final(ports).len() == old(ports).len(),
        pv(*final(ports)) == pv(*old(ports)).update(p as int, m.apply(old(ports)[p as int]@)),
{
    let pi = p as usize;
    ports[pi].ip_active = m.active;
    ports[pi].ip_references = m.references;
    ports[pi].ip_srights = m.srights;
    ports[pi].ip_sorights = m.sorights;
    ports[pi].ip_mscount = m.mscount;
    ports[pi].ip_receiver_name = m.receiver_name;
    ports[pi].ip_receiver = m.receiver;
    ports[pi].ip_destination = m.destination;
    ports[pi].ip_nsrequest = m.nsrequest;
    ports[pi].ip_pdrequest = m.pdrequest;
    ports[pi].ip_protected_payload = m.protected_payload;
    ports[pi].ip_payload = m.payload;
    ports[pi].ip_timestamp = m.timestamp;
    ports[pi].ip_kotype = m.kotype;
    ports[pi].ip_pset = m.pset;
    ports[pi].ip_msgcount = m.msgcount;
    ports[pi].ip_qlimit = m.qlimit;
    ports[pi].ip_seqno = m.seqno;
    assert(pv(*final(ports)) =~= pv(*old(ports)).update(p as int, m.apply(old(ports)[p as int]@)));
}

/// The scalar state of a port, as plain values.
#[derive(Clone, Copy, Debug, PartialEq, Eq, Structural)]
pub struct PortScalars {
    pub active: bool,
    pub references: u32,
    pub srights: u32,
    pub sorights: u32,
    pub mscount: u32,
    pub receiver_name: u32,
    pub receiver: u32,
    pub destination: u32,
    pub nsrequest: u32,
    pub pdrequest: u32,
    pub protected_payload: bool,
    pub payload: u32,
    pub timestamp: u32,
    pub kotype: u32,
    pub pset: u32,
    pub msgcount: u32,
    pub qlimit: u32,
    pub seqno: u32,
}

impl PortScalars {
    pub open spec fn apply(self, p: PortModel) -> PortModel {
        PortModel {
            active: self.active,
            references: self.references,
            srights: self.srights,
            sorights: self.sorights,
            mscount: self.mscount,
            receiver_name: self.receiver_name,
            receiver: self.receiver,
            destination: self.destination,
            nsrequest: self.nsrequest,
            pdrequest: self.pdrequest,
            protected_payload: self.protected_payload,
            payload: self.payload,
            timestamp: self.timestamp,
            dnrequests: p.dnrequests,
            kotype: self.kotype,
            pset: self.pset,
            msgcount: self.msgcount,
            qlimit: self.qlimit,
            seqno: self.seqno,
            blocked: p.blocked,
            messages: p.messages,
            receivers: p.receivers,
        }
    }

    pub open spec fn of(p: PortModel) -> PortScalars {
        PortScalars {
            active: p.active,
            references: p.references,
            srights: p.srights,
            sorights: p.sorights,
            mscount: p.mscount,
            receiver_name: p.receiver_name,
            receiver: p.receiver,
            destination: p.destination,
            nsrequest: p.nsrequest,
            pdrequest: p.pdrequest,
            protected_payload: p.protected_payload,
            payload: p.payload,
            timestamp: p.timestamp,
            kotype: p.kotype,
            pset: p.pset,
            msgcount: p.msgcount,
            qlimit: p.qlimit,
            seqno: p.seqno,
        }
    }
}

/// Read the scalar state of port `p`.
pub fn get_port(ports: &Vec<ipc_port>, p: u32) -> (m: PortScalars)
    requires
        p < ports.len(),
    ensures
        m == PortScalars::of(ports[p as int]@),
        m.apply(ports[p as int]@) == ports[p as int]@,
{
    let q = &ports[p as usize];
    PortScalars {
        active: q.ip_active,
        references: q.ip_references,
        srights: q.ip_srights,
        sorights: q.ip_sorights,
        mscount: q.ip_mscount,
        receiver_name: q.ip_receiver_name,
        receiver: q.ip_receiver,
        destination: q.ip_destination,
        nsrequest: q.ip_nsrequest,
        pdrequest: q.ip_pdrequest,
        protected_payload: q.ip_protected_payload,
        payload: q.ip_payload,
        timestamp: q.ip_timestamp,
        kotype: q.ip_kotype,
        pset: q.ip_pset,
        msgcount: q.ip_msgcount,
        qlimit: q.ip_qlimit,
        seqno: q.ip_seqno,
    }
}

/// `ipc_port_release`: drop a reference, freeing the port with the last one.
pub fn ipc_port_release(ports: &mut Vec<ipc_port>, p: u32, acts: &mut Vec<IpcAction>)
    requires
        p < old(ports).len(),
        old(ports)[p as int].ip_references > 0,
    ensures
        final(ports).len() == old(ports).len(),
        pv(*final(ports)) == pv(*old(ports)).update(p as int, released(old(ports)[p as int]@)),
        final(acts)@ == old(acts)@ + release_actions(p, old(ports)[p as int].ip_references),
{
    let m = get_port(ports, p);
    let refs = m.references - 1;
    set_port(ports, p, PortScalars { references: refs, ..m });
    if refs == 0 {
        acts.push(IpcAction::FreeObject { object: p });
    }
    assert(acts@ =~= old(acts)@ + release_actions(p, old(ports)[p as int].ip_references));
}

/// The port after slot `index` of its dead-name table went back to the
/// free list.
pub open spec fn dncancelled(p: PortModel, index: u32) -> PortModel {
    let t = p.dnrequests;
    let t1 = t.update(index as int, DnRequest { name: 0, notify: t[0].notify });
    PortModel { dnrequests: t1.update(0, DnRequest { name: t[0].name, notify: index }), ..p }
}

/// `ipc_port_dncancel`: take the dead-name request in slot `index` off the
/// port's table, returning the port it would have notified.
pub fn ipc_port_dncancel(ports: &mut Vec<ipc_port>, p: u32, name: mach_port_name_t, index: u32) -> (dn: u32)
    requires
        p < old(ports).len(),
        old(ports)[p as int].ip_active,
        name != MACH_PORT_NAME_NULL,
        0 < index < old(ports)[p as int].ip_dnrequests.len(),
        old(ports)[p as int].ip_dnrequests[index as int].name == name,
    ensures
        final(ports).len() == old(ports).len(),
        dn == old(ports)[p as int].ip_dnrequests[index as int].notify,
        pv(*final(ports)) == pv(*old(ports)).update(p as int, dncancelled(old(ports)[p as int]@, index)),
{
    let pi = p as usize;
    let ii = index as usize;
    let dn = ports[pi].ip_dnrequests[ii].notify;
    let free_head = ports[pi].ip_dnrequests[0].notify;
    let mut table = Vec::new();
    std::mem::swap(&mut table, &mut ports[pi].ip_dnrequests);
    let hdr = DnRequest { name: table[0].name, notify: index };
    table.set(ii, DnRequest { name: MACH_PORT_NAME_NULL, notify: free_head });
    table.set(0, hdr);
    ports[pi].ip_dnrequests = table;
    assert(final(ports)[p as int]@ =~= dncancelled(old(ports)[p as int]@, index));
    assert(pv(*final(ports)) =~= pv(*old(ports)).update(p as int, dncancelled(old(ports)[p as int]@, index)));
    dn
}

// ─── Entries and the rights state ────────────────────────────────

/// The state one rights operation works on: the entry, all ports, and the
/// actions handed on so far.
#[verifier::ext_equal]
pub ghost struct RState {
    pub e: ipc_entry,
    pub ports: Seq<PortModel>,
    pub acts: Seq<IpcAction>,
}

pub open spec fn rstate(space: ipc_space, idx: usize, ports: Vec<ipc_port>, acts: Vec<IpcAction>) -> RState {
    RState { e: space.is_entries[idx as int], ports: pv(ports), acts: acts@ }
}

/// An entry deallocated back to the space's free list.
pub open spec fn freed(e: ipc_entry) -> ipc_entry {
    ipc_entry { ie_name: e.ie_name, ie_bits: 0, ie_object: 0, ie_request: 0 }
}

pub open spec fn st_entry(s: RState, e: ipc_entry) -> RState {
    RState { e, ..s }
}

pub open spec fn st_port(s: RState, p: u32, m: PortModel) -> RState {
    RState { ports: s.ports.update(p as int, m), ..s }
}

pub open spec fn st_act(s: RState, a: IpcAction) -> RState {
    RState { acts: s.acts.push(a), ..s }
}

pub open spec fn st_release(s: RState, p: u32) -> RState {
    RState {
        ports: s.ports.update(p as int, released(s.ports[p as int])),
        acts: s.acts + release_actions(p, s.ports[p as int].references),
        ..s
    }
}

/// `ipc_right_dncancel`, guarded by the entry having a request: the port
/// registered for the entry's dead-name notification (0 for none).
pub open spec fn st_dncancel(s: RState) -> (u32, RState) {
    if s.e.ie_request == 0 {
        (0, s)
    } else {
        let p = s.e.ie_object;
        (
            s.ports[p as int].dnrequests[s.e.ie_request as int].notify,
            RState {
                e: ipc_entry { ie_request: 0, ..s.e },
                ports: s.ports.update(p as int, dncancelled(s.ports[p as int], s.e.ie_request)),
                ..s
            },
        )
    }
}

/// The bits of an entry turned into a dead name by `ipc_right_check`.
pub open spec fn dead_bits(bits: u32, request: u32) -> u32 {
    let b1 = if bits & MACH_PORT_TYPE_SEND != 0 && bits & IE_BITS_MAREQUEST != 0 { bits & !IE_BITS_MAREQUEST } else { bits };
    let b2 = (b1 & !IE_BITS_TYPE_MASK) | MACH_PORT_TYPE_DEAD_NAME;
    if request != 0 { (b2 + 1) as u32 } else { b2 }
}

/// `ipc_right_check`: if the port named by a send or send-once right has
/// died, turn the entry into a dead name (true); otherwise nothing changes.
pub open spec fn st_check(s: RState) -> (bool, RState) {
    let p = s.e.ie_object;
    let bits = s.e.ie_bits;
    if s.ports[p as int].active {
        (false, s)
    } else {
        let s1 = if bits & MACH_PORT_TYPE_SEND != 0 {
            let s0 = if bits & IE_BITS_MAREQUEST != 0 {
                st_act(s, IpcAction::CancelMarequest { name: s.e.ie_name })
            } else {
                s
            };
            st_act(s0, IpcAction::ReverseRemove { port: p })
        } else {
            s
        };
        let s2 = st_release(s1, p);
        (true, st_entry(s2, ipc_entry {
            ie_name: s.e.ie_name,
            ie_bits: dead_bits(bits, s.e.ie_request),
            ie_object: 0,
            ie_request: 0,
        }))
    }
}

/// The entry's dead-name request, if any, names a used slot of its port's
/// table that holds the entry's name.
pub open spec fn dn_ok(e: ipc_entry, ports: Seq<PortModel>) -> bool {
    e.ie_request != 0 ==> {
        &&& e.ie_name != MACH_PORT_NAME_NULL
        &&& e.ie_object < ports.len()
        &&& 0 < e.ie_request < ports[e.ie_object as int].dnrequests.len()
        &&& ports[e.ie_object as int].dnrequests[e.ie_request as int].name == e.ie_name
    }
}

/// The consistency the rights operations rely on between an entry and the
/// port it names.
pub open spec fn entry_ok(e: ipc_entry, ports: Seq<PortModel>) -> bool {
    let bits = e.ie_bits;
    let t = ie_type(bits);
    &&& (bits & MACH_PORT_TYPE_PORT_RIGHTS != 0 ==> {
        let p = e.ie_object;
        &&& 0 < p < ports.len()
        &&& ports[p as int].references > 0
        &&& (bits & MACH_PORT_TYPE_SEND != 0 && ports[p as int].active ==> ports[p as int].srights > 0)
        &&& (bits & MACH_PORT_TYPE_SEND_ONCE != 0 && ports[p as int].active ==> ports[p as int].sorights > 0)
        &&& (!ports[p as int].active ==> bits & MACH_PORT_TYPE_RECEIVE == 0)
        &&& (e.ie_request != 0 ==> ports[p as int].active)
    })
    &&& (bits & MACH_PORT_TYPE_SEND_RIGHTS != 0 || bits & MACH_PORT_TYPE_DEAD_NAME != 0 ==> ie_urefs(bits) > 0)
    &&& (t == MACH_PORT_TYPE_SEND_ONCE ==> ie_urefs(bits) == 1)
    &&& (e.ie_request != 0 ==> ie_urefs(bits) < MACH_PORT_UREFS_MAX)
    &&& dn_ok(e, ports)
}

/// What `ipc_right_check` relies on: the entry names a port, holds a
/// reference to it, and has room for the reference a pending dead-name
/// request turns into.
pub open spec fn check_ok(e: ipc_entry, ports: Seq<PortModel>) -> bool {
    let p = e.ie_object;
    &&& 0 < p < ports.len()
    &&& ports[p as int].references > 0
    &&& (!ports[p as int].active ==> e.ie_bits & MACH_PORT_TYPE_RECEIVE == 0)
    &&& (e.ie_request != 0 ==> ie_urefs(e.ie_bits) < MACH_PORT_UREFS_MAX && ports[p as int].active)
    &&& dn_ok(e, ports)
}

/// Read entry `idx` of a space.
pub fn get_entry(space: &ipc_space, idx: usize) -> (e: ipc_entry)
    requires idx < space.is_entries.len(),
    ensures e == space.is_entries[idx as int],
{
    space.is_entries[idx]
}

/// Write entry `idx` of a space.
pub fn set_entry(space: &mut ipc_space, idx: usize, e: ipc_entry)
    requires idx < old(space).is_entries.len(),
    ensures
        final(space).is_entries@ == old(space).is_entries@.update(idx as int, e),
        final(space).is_active == old(space).is_active,
        final(space).is_id == old(space).is_id,
{
    space.is_entries.set(idx, e);
}

/// `ipc_right_dncancel` behind the check of the entry's request: cancel the
/// entry's dead-name request and return the port it would have notified.
pub fn ipc_right_dncancel(space: &mut ipc_space, idx: usize, ports: &mut Vec<ipc_port>, acts: &Vec<IpcAction>) -> (dn: u32)
    requires
        idx < old(space).is_entries.len(),
        dn_ok(old(space).is_entries[idx as int], pv(*old(ports))),
        old(space).is_entries[idx as int].ie_request != 0 ==> old(ports)[old(space).is_entries[idx as int].ie_object as int].ip_active,
    ensures
        (dn, rstate(*final(space), idx, *final(ports), *acts)) == st_dncancel(rstate(*old(space), idx, *old(ports), *acts)),
        space_frame(*old(space), *final(space), idx),
        final(ports).len() == old(ports).len(),
{
    let e = get_entry(space, idx);
    if e.ie_request == 0 {
        proof { lemma_frame(*old(space), *space, idx); }
        return 0;
    }
    let dn = ipc_port_dncancel(ports, e.ie_object, e.ie_name, e.ie_request);
    set_entry(space, idx, ipc_entry { ie_request: 0, ..e });
    dn
}

/// Only entry `idx` of the space changes.
pub open spec fn space_frame(o: ipc_space, n: ipc_space, idx: usize) -> bool {
    &&& n.is_entries.len() == o.is_entries.len()
    &&& n.is_entries@ == o.is_entries@.update(idx as int, n.is_entries[idx as int])
    &&& n.is_active == o.is_active
    &&& n.is_id == o.is_id
}

/// `ipc_right_check`: if the port named by entry `idx` (a send or
/// send-once right) is dead, turn the entry into a dead name and return
/// true; otherwise change nothing and return false.
pub fn ipc_right_check(space: &mut ipc_space, idx: usize, ports: &mut Vec<ipc_port>, acts: &mut Vec<IpcAction>) -> (r: bool)
    requires
        idx < old(space).is_entries.len(),
        check_ok(old(space).is_entries[idx as int], pv(*old(ports))),
    ensures
        (r, rstate(*final(space), idx, *final(ports), *final(acts)))
            == st_check(rstate(*old(space), idx, *old(ports), *old(acts))),
        space_frame(*old(space), *final(space), idx),
        final(ports).len() == old(ports).len(),
{
    let e = get_entry(space, idx);
    let p = e.ie_object;
    let active = ports[p as usize].ip_active;
    if active {
        assert(space.is_entries@ =~= old(space).is_entries@.update(idx as int, space.is_entries[idx as int]));
        return false;
    }
    let mut bits = e.ie_bits;
    if bits & MACH_PORT_TYPE_SEND != 0 {
        if bits & IE_BITS_MAREQUEST != 0 {
            bits = bits & !IE_BITS_MAREQUEST;
            acts.push(IpcAction::CancelMarequest { name: e.ie_name });
        }
        acts.push(IpcAction::ReverseRemove { port: p });
    }
    ipc_port_release(ports, p, acts);
    bits = (bits & !IE_BITS_TYPE_MASK) | MACH_PORT_TYPE_DEAD_NAME;
    if e.ie_request != 0 {
        proof {
            lemma_entry_bits(e.ie_bits);
            lemma_entry_bits(e.ie_bits & !IE_BITS_MAREQUEST);
            lemma_entry_bits(bits);
        }
        bits = bits + 1;
    }
    set_entry(space, idx, ipc_entry { ie_name: e.ie_name, ie_bits: bits, ie_object: 0, ie_request: 0 });
    let ghost s0 = rstate(*old(space), idx, *old(ports), *old(acts));
    assert(rstate(*final(space), idx, *final(ports), *final(acts)) =~= st_check(s0).1);
    true
}

/// Drop one reference of port `p` without freeing it (`ip_release`).
pub open spec fn st_ip_release(s: RState, p: u32) -> RState {
    st_port(s, p, released(s.ports[p as int]))
}

/// Give up one send right of port `p`; when it was the last, take the
/// port's no-senders request.  Returns the port to notify (0 for none) and
/// the make-send count to report.
pub open spec fn st_drop_send(s: RState, p: u32) -> (u32, u32, RState) {
    let q = s.ports[p as int];
    let sr = (q.srights - 1) as u32;
    if sr == 0 {
        (q.nsrequest, if q.nsrequest != 0 { q.mscount } else { 0 },
            st_port(s, p, PortModel { srights: sr, nsrequest: 0, ..q }))
    } else {
        (0, 0, st_port(s, p, PortModel { srights: sr, ..q }))
    }
}

/// Queue the no-senders and port-deleted notifications that are due.
pub open spec fn st_notify(s: RState, ns: u32, mscount: u32, dn: u32, name: u32) -> RState {
    RState { acts: notify_seq(s.acts, ns, mscount, dn, name), ..s }
}

pub open spec fn notify_seq(a: Seq<IpcAction>, ns: u32, mscount: u32, dn: u32, name: u32) -> Seq<IpcAction> {
    let a1 = if ns != 0 { a.push(IpcAction::NotifyNoSenders { notify: ns, mscount }) } else { a };
    if dn != 0 { a1.push(IpcAction::NotifyPortDeleted { notify: dn, name }) } else { a1 }
}

/// The entry with one user reference fewer.
pub open spec fn dec_urefs(e: ipc_entry) -> ipc_entry {
    ipc_entry { ie_bits: (e.ie_bits - 1) as u32, ..e }
}

/// Releasing one user reference of a dead name.
pub open spec fn st_dealloc_dead(s: RState) -> (i32, RState) {
    if ie_urefs(s.e.ie_bits) == 1 {
        (KERN_SUCCESS, st_entry(s, freed(s.e)))
    } else {
        (KERN_SUCCESS, st_entry(s, dec_urefs(s.e)))
    }
}

/// `ipc_right_dealloc`: release one user reference of the right named by
/// the entry.
pub open spec fn st_dealloc(s: RState) -> (i32, RState) {
    let bits = s.e.ie_bits;
    let t = ie_type(bits);
    let p = s.e.ie_object;
    let name = s.e.ie_name;
    if t == MACH_PORT_TYPE_DEAD_NAME {
        st_dealloc_dead(s)
    } else if t == MACH_PORT_TYPE_SEND_ONCE {
        let (dead, s1) = st_check(s);
        if dead {
            st_dealloc_dead(s1)
        } else {
            let (dn, s2) = st_dncancel(s1);
            let s3 = st_entry(s2, freed(s2.e));
            let s4 = st_act(s3, IpcAction::NotifySendOnce { port: p });
            (KERN_SUCCESS, st_notify(s4, 0, 0, dn, name))
        }
    } else if t == MACH_PORT_TYPE_SEND {
        let (dead, s1) = st_check(s);
        if dead {
            st_dealloc_dead(s1)
        } else if ie_urefs(bits) == 1 {
            let (ns, msc, s2) = st_drop_send(s1, p);
            let (dn, s3) = st_dncancel(s2);
            let s4 = st_act(s3, IpcAction::ReverseRemove { port: p });
            let s5 = if bits & IE_BITS_MAREQUEST != 0 { st_act(s4, IpcAction::CancelMarequest { name }) } else { s4 };
            let s6 = st_ip_release(s5, p);
            let s7 = st_entry(s6, freed(s6.e));
            (KERN_SUCCESS, st_notify(s7, ns, msc, dn, name))
        } else {
            (KERN_SUCCESS, st_entry(s1, dec_urefs(s1.e)))
        }
    } else if t == MACH_PORT_TYPE_SEND_RECEIVE {
        if ie_urefs(bits) == 1 {
            let (ns, msc, s1) = st_drop_send(s, p);
            let s2 = st_entry(s1, ipc_entry { ie_bits: bits & !(IE_BITS_UREFS_MASK | MACH_PORT_TYPE_SEND), ..s1.e });
            (KERN_SUCCESS, st_notify(s2, ns, msc, 0, name))
        } else {
            (KERN_SUCCESS, st_entry(s, dec_urefs(s.e)))
        }
    } else {
        (KERN_INVALID_RIGHT, s)
    }
}

/// Give up a send right of port `p` (see `st_drop_send`).
fn port_drop_send(ports: &mut Vec<ipc_port>, p: u32, Ghost(s): Ghost<RState>) -> (r: (u32, u32))
    requires
        p < old(ports).len(),
        old(ports)[p as int].ip_srights > 0,
        s.ports == pv(*old(ports)),
    ensures
        final(ports).len() == old(ports).len(),
        (r.0, r.1, RState { ports: pv(*final(ports)), ..s }) == st_drop_send(s, p),
{
    let mut m = get_port(ports, p);
    m.srights = m.srights - 1;
    let mut ns: u32 = 0;
    let mut msc: u32 = 0;
    if m.srights == 0 {
        ns = m.nsrequest;
        if ns != 0 {
            m.nsrequest = 0;
            msc = m.mscount;
        }
    }
    set_port(ports, p, m);
    assert(RState { ports: pv(*ports), ..s } =~= st_drop_send(s, p).2);
    (ns, msc)
}

/// Drop one reference of port `p` (`ip_release`).
fn port_ip_release(ports: &mut Vec<ipc_port>, p: u32)
    requires
        p < old(ports).len(),
        old(ports)[p as int].ip_references > 0,
    ensures
        final(ports).len() == old(ports).len(),
        pv(*final(ports)) == pv(*old(ports)).update(p as int, released(old(ports)[p as int]@)),
{
    let m = get_port(ports, p);
    set_port(ports, p, PortScalars { references: m.references - 1, ..m });
}

/// Queue the notifications that are due (see `st_notify`).
fn push_notify(acts: &mut Vec<IpcAction>, ns: u32, mscount: u32, dn: u32, name: u32)
    ensures
        final(acts)@ == notify_seq(old(acts)@, ns, mscount, dn, name),
{
    if ns != 0 {
        acts.push(IpcAction::NotifyNoSenders { notify: ns, mscount });
    }
    if dn != 0 {
        acts.push(IpcAction::NotifyPortDeleted { notify: dn, name });
    }
}

/// Exec form of `st_dealloc_dead`.
fn dealloc_dead(space: &mut ipc_space, idx: usize)
    requires
        idx < old(space).is_entries.len(),
        ie_urefs(old(space).is_entries[idx as int].ie_bits) >= 1,
    ensures
        space_frame(*old(space), *final(space), idx),
        final(space).is_entries[idx as int] == ({
            let e = old(space).is_entries[idx as int];
            if ie_urefs(e.ie_bits) == 1 { freed(e) } else { dec_urefs(e) }
        }),
{
    let e = get_entry(space, idx);
    proof { lemma_entry_bits(e.ie_bits); }
    if ie_bits_urefs(e.ie_bits) == 1 {
        set_entry(space, idx, ipc_entry { ie_name: e.ie_name, ie_bits: 0, ie_object: 0, ie_request: 0 });
    } else {
        set_entry(space, idx, ipc_entry { ie_bits: e.ie_bits - 1, ..e });
    }
}

/// The dead name made by `ipc_right_check` keeps at least one reference.
proof fn lemma_dead_bits(bits: u32, request: u32)
    requires
        ie_urefs(bits) > 0,
        request != 0 ==> ie_urefs(bits) < MACH_PORT_UREFS_MAX,
    ensures
        ie_urefs(dead_bits(bits, request)) == ie_urefs(bits) + if request != 0 { 1int } else { 0 },
        ie_type(dead_bits(bits, request)) == MACH_PORT_TYPE_DEAD_NAME,
        dead_bits(bits, request) & IE_BITS_MAREQUEST == if bits & MACH_PORT_TYPE_SEND != 0 { 0 } else { bits & IE_BITS_MAREQUEST },
{
    lemma_entry_bits(bits);
    let b1 = if bits & MACH_PORT_TYPE_SEND != 0 && bits & IE_BITS_MAREQUEST != 0 { bits & !IE_BITS_MAREQUEST } else { bits };
    lemma_entry_bits(b1);
    let b2 = (b1 & !IE_BITS_TYPE_MASK) | MACH_PORT_TYPE_DEAD_NAME;
    lemma_entry_bits(b2);
    lemma_mareq_bits(bits);
}

proof fn lemma_mareq_bits(bits: u32)
    by (bit_vector)
    ensures
        ((bits & !0x0020_0000u32) & !0x001f_0000u32 | 0x0010_0000u32) & 0x0020_0000u32 == 0,
        ((bits & !0x001f_0000u32) | 0x0010_0000u32) & 0x0020_0000u32 == bits & 0x0020_0000u32,
        (((bits & !0x0020_0000u32) & !0x001f_0000u32 | 0x0010_0000u32) + 1) as u32 & 0x0020_0000u32 == 0
            || bits & 0xffffu32 >= 0xffff,
        ((((bits & !0x001f_0000u32) | 0x0010_0000u32) + 1) as u32 & 0x0020_0000u32 == bits & 0x0020_0000u32)
            || bits & 0xffffu32 >= 0xffff,
        bits & 0x0001_0000u32 != 0 && bits & 0x0020_0000u32 == 0 ==> ((bits & !0x001f_0000u32) | 0x0010_0000u32) & 0x0020_0000u32 == 0,
{
}

/// `ipc_right_dealloc`: release one user reference of the right named by
/// entry `idx` of an active space.
pub fn ipc_right_dealloc(space: &mut ipc_space, idx: usize, ports: &mut Vec<ipc_port>, acts: &mut Vec<IpcAction>) -> (kr: kern_return_t)
    requires
        old(space).is_active,
        idx < old(space).is_entries.len(),
        entry_ok(old(space).is_entries[idx as int], pv(*old(ports))),
    ensures
        (kr, rstate(*final(space), idx, *final(ports), *final(acts)))
            == st_dealloc(rstate(*old(space), idx, *old(ports), *old(acts))),
        space_frame(*old(space), *final(space), idx),
        final(ports).len() == old(ports).len(),
{
    let ghost s0 = rstate(*space, idx, *ports, *acts);
    let e = get_entry(space, idx);
    let bits = e.ie_bits;
    let t = ie_bits_type(bits);
    let p = e.ie_object;
    let name = e.ie_name;
    proof { lemma_entry_bits(bits); lemma_type_bits(bits); }
    if t == MACH_PORT_TYPE_DEAD_NAME {
        proof { lemma_type_bits(bits); }
        dealloc_dead(space, idx);
        assert(rstate(*space, idx, *ports, *acts) =~= st_dealloc(s0).1);
        proof { lemma_frame(*old(space), *space, idx); }
        return KERN_SUCCESS;
    } else if t == MACH_PORT_TYPE_SEND_ONCE {
        assert(bits & MACH_PORT_TYPE_PORT_RIGHTS != 0) by { lemma_type_bits(bits); }
        if ipc_right_check(space, idx, ports, acts) {
            proof { lemma_dead_bits(bits, e.ie_request); }
            dealloc_dead(space, idx);
            assert(rstate(*space, idx, *ports, *acts) =~= st_dealloc(s0).1);
            proof { lemma_frame(*old(space), *space, idx); }
            return KERN_SUCCESS;
        }
        let dn = ipc_right_dncancel(space, idx, ports, acts);
        set_entry(space, idx, ipc_entry { ie_name: name, ie_bits: 0, ie_object: 0, ie_request: 0 });
        acts.push(IpcAction::NotifySendOnce { port: p });
        push_notify(acts, 0, 0, dn, name);
        assert(rstate(*space, idx, *ports, *acts) =~= st_dealloc(s0).1);
        proof { lemma_frame(*old(space), *space, idx); }
        return KERN_SUCCESS;
    } else if t == MACH_PORT_TYPE_SEND {
        assert(bits & MACH_PORT_TYPE_PORT_RIGHTS != 0 && bits & MACH_PORT_TYPE_SEND != 0) by { lemma_type_bits(bits); }
        if ipc_right_check(space, idx, ports, acts) {
            proof { lemma_dead_bits(bits, e.ie_request); }
            dealloc_dead(space, idx);
            assert(rstate(*space, idx, *ports, *acts) =~= st_dealloc(s0).1);
            proof { lemma_frame(*old(space), *space, idx); }
            return KERN_SUCCESS;
        }
        if ie_bits_urefs(bits) == 1 {
            let (ns, msc) = port_drop_send(ports, p, Ghost(rstate(*space, idx, *ports, *acts)));
            let dn = ipc_right_dncancel(space, idx, ports, acts);
            acts.push(IpcAction::ReverseRemove { port: p });
            if bits & IE_BITS_MAREQUEST != 0 {
                acts.push(IpcAction::CancelMarequest { name });
            }
            port_ip_release(ports, p);
            set_entry(space, idx, ipc_entry { ie_name: name, ie_bits: 0, ie_object: 0, ie_request: 0 });
            push_notify(acts, ns, msc, dn, name);
            assert(rstate(*space, idx, *ports, *acts) =~= st_dealloc(s0).1);
            proof { lemma_frame(*old(space), *space, idx); }
            return KERN_SUCCESS;
        } else {
            set_entry(space, idx, ipc_entry { ie_bits: bits - 1, ..e });
            assert(rstate(*space, idx, *ports, *acts) =~= st_dealloc(s0).1);
            proof { lemma_frame(*old(space), *space, idx); }
            return KERN_SUCCESS;
        }
    } else if t == MACH_PORT_TYPE_SEND_RECEIVE {
        assert(bits & MACH_PORT_TYPE_PORT_RIGHTS != 0 && bits & MACH_PORT_TYPE_SEND != 0 && bits & MACH_PORT_TYPE_RECEIVE != 0)
            by { lemma_type_bits(bits); }
        if ie_bits_urefs(bits) == 1 {
            let (ns, msc) = port_drop_send(ports, p, Ghost(rstate(*space, idx, *ports, *acts)));
            set_entry(space, idx, ipc_entry { ie_bits: bits & !(IE_BITS_UREFS_MASK | MACH_PORT_TYPE_SEND), ..e });
            push_notify(acts, ns, msc, 0, name);
            assert(rstate(*space, idx, *ports, *acts) =~= st_dealloc(s0).1);
            proof { lemma_frame(*old(space), *space, idx); }
            return KERN_SUCCESS;
        } else {
            set_entry(space, idx, ipc_entry { ie_bits: bits - 1, ..e });
            assert(rstate(*space, idx, *ports, *acts) =~= st_dealloc(s0).1);
            proof { lemma_frame(*old(space), *space, idx); }
            return KERN_SUCCESS;
        }
    }
    assert(space.is_entries@ =~= old(space).is_entries@.update(idx as int, space.is_entries[idx as int]));
    KERN_INVALID_RIGHT
}

/// What each right type says of the individual type bits.
pub proof fn lemma_type_bits(bits: u32)
    by (bit_vector)
    ensures
        bits & 0x001f_0000u32 == 0x0001_0000u32 ==> bits & 0x0001_0000u32 != 0 && bits & 0x0002_0000u32 == 0 && bits & 0x0004_0000u32 == 0 && bits & 0x0008_0000u32 == 0 && bits & 0x0010_0000u32 == 0,
        bits & 0x001f_0000u32 == 0x0002_0000u32 ==> bits & 0x0001_0000u32 == 0 && bits & 0x0002_0000u32 != 0 && bits & 0x0004_0000u32 == 0 && bits & 0x0008_0000u32 == 0 && bits & 0x0010_0000u32 == 0,
        bits & 0x001f_0000u32 == 0x0003_0000u32 ==> bits & 0x0001_0000u32 != 0 && bits & 0x0002_0000u32 != 0 && bits & 0x0004_0000u32 == 0 && bits & 0x0008_0000u32 == 0 && bits & 0x0010_0000u32 == 0,
        bits & 0x001f_0000u32 == 0x0004_0000u32 ==> bits & 0x0001_0000u32 == 0 && bits & 0x0002_0000u32 == 0 && bits & 0x0004_0000u32 != 0 && bits & 0x0008_0000u32 == 0 && bits & 0x0010_0000u32 == 0,
        bits & 0x001f_0000u32 == 0x0008_0000u32 ==> bits & 0x0001_0000u32 == 0 && bits & 0x0002_0000u32 == 0 && bits & 0x0004_0000u32 == 0 && bits & 0x0008_0000u32 != 0 && bits & 0x0010_0000u32 == 0,
        bits & 0x001f_0000u32 == 0x0010_0000u32 ==> bits & 0x0001_0000u32 == 0 && bits & 0x0002_0000u32 == 0 && bits & 0x0004_0000u32 == 0 && bits & 0x0008_0000u32 == 0 && bits & 0x0010_0000u32 != 0,
        (bits & 0x0007_0000u32 != 0) == (bits & 0x0001_0000u32 != 0 || bits & 0x0002_0000u32 != 0 || bits & 0x0004_0000u32 != 0),
        (bits & 0x0005_0000u32 != 0) == (bits & 0x0001_0000u32 != 0 || bits & 0x0004_0000u32 != 0),
        (bits & 0x0015_0000u32 != 0) == (bits & 0x0001_0000u32 != 0 || bits & 0x0004_0000u32 != 0 || bits & 0x0010_0000u32 != 0),
        (bits & 0x0017_0000u32 != 0) == (bits & 0x0001_0000u32 != 0 || bits & 0x0002_0000u32 != 0 || bits & 0x0004_0000u32 != 0 || bits & 0x0010_0000u32 != 0),
        bits & 0x001f_0000u32 == 0x0003_0000u32 ==> (bits & !(0xffffu32 | 0x0001_0000u32)) & 0x001f_0000u32 == 0x0002_0000u32
            && (bits & !(0xffffu32 | 0x0001_0000u32)) & 0xffffu32 == 0
            && (bits & !(0xffffu32 | 0x0001_0000u32)) & 0x0001_0000u32 == 0,
        0u32 & 0x0001_0000u32 == 0,
{
}

/// Only entry `idx` differs between two spaces of equal shape.
pub proof fn lemma_frame(o: ipc_space, n: ipc_space, idx: usize)
    requires
        n.is_entries.len() == o.is_entries.len(),
        idx < o.is_entries.len(),
        forall|j: int| 0 <= j < o.is_entries.len() && j != idx ==> n.is_entries[j] == o.is_entries[j],
        n.is_active == o.is_active,
        n.is_id == o.is_id,
    ensures
        space_frame(o, n, idx),
{
    assert(n.is_entries@ =~= o.is_entries@.update(idx as int, n.is_entries[idx as int]));
}

/// Adding to or taking from the user references of an entry leaves its
/// other bits alone while the count stays in range.
pub proof fn lemma_urefs_shift(bits: u32, d: u32)
    by (bit_vector)
    ensures
        (bits & 0xffffu32) + d <= 0xffff ==> ((bits + d) as u32 & 0xffffu32) == (bits & 0xffffu32) + d
            && ((bits + d) as u32 & 0x003f_0000u32) == bits & 0x003f_0000u32
            && ((bits + d) as u32 & 0x001f_0000u32) == bits & 0x001f_0000u32
            && bits + d <= 0xFFFF_FFFFu32,
        d <= (bits & 0xffffu32) ==> ((bits - d) as u32 & 0xffffu32) == (bits & 0xffffu32) - d
            && ((bits - d) as u32 & 0x003f_0000u32) == bits & 0x003f_0000u32
            && ((bits - d) as u32 & 0x001f_0000u32) == bits & 0x001f_0000u32
            && bits >= d,
{
}

/// `ipc_right_delta`: change the user references of one right of the entry
/// by `delta` (receive, send-once and port-set rights only go away with -1).
pub open spec fn st_delta(s: RState, right: u32, delta: i32) -> (i32, RState) {
    let bits = s.e.ie_bits;
    let p = s.e.ie_object;
    let name = s.e.ie_name;
    if right == MACH_PORT_RIGHT_PORT_SET {
        if bits & MACH_PORT_TYPE_PORT_SET == 0 {
            (KERN_INVALID_RIGHT, s)
        } else if delta == 0 {
            (KERN_SUCCESS, s)
        } else if delta != -1 {
            (KERN_INVALID_VALUE, s)
        } else {
            (KERN_SUCCESS, st_act(st_entry(s, freed(s.e)), IpcAction::DestroyPortSet { pset: p }))
        }
    } else if right == MACH_PORT_RIGHT_RECEIVE {
        if bits & MACH_PORT_TYPE_RECEIVE == 0 {
            (KERN_INVALID_RIGHT, s)
        } else if delta == 0 {
            (KERN_SUCCESS, s)
        } else if delta != -1 {
            (KERN_INVALID_VALUE, s)
        } else {
            let s1 = if bits & IE_BITS_MAREQUEST != 0 { st_act(s, IpcAction::CancelMarequest { name }) } else { s };
            let b1 = if bits & IE_BITS_MAREQUEST != 0 { bits & !IE_BITS_MAREQUEST } else { bits };
            let (dn, s2) = if b1 & MACH_PORT_TYPE_SEND != 0 {
                let b2 = (b1 & !IE_BITS_TYPE_MASK) | MACH_PORT_TYPE_DEAD_NAME;
                let b3 = if s.e.ie_request != 0 { (b2 + 1) as u32 } else { b2 };
                (0u32, st_entry(s1, ipc_entry { ie_name: name, ie_bits: b3, ie_object: 0, ie_request: 0 }))
            } else {
                let (dn, t1) = st_dncancel(s1);
                (dn, st_entry(t1, freed(t1.e)))
            };
            let s3 = st_act(s2, IpcAction::DestroyPort { port: p });
            (KERN_SUCCESS, st_notify(s3, 0, 0, dn, name))
        }
    } else if right == MACH_PORT_RIGHT_SEND_ONCE {
        if bits & MACH_PORT_TYPE_SEND_ONCE == 0 {
            (KERN_INVALID_RIGHT, s)
        } else if delta > 0 || delta < -1 {
            (KERN_INVALID_VALUE, s)
        } else {
            let (dead, s1) = st_check(s);
            if dead {
                (KERN_INVALID_RIGHT, s1)
            } else if delta == 0 {
                (KERN_SUCCESS, s1)
            } else {
                let (dn, s2) = st_dncancel(s1);
                let s3 = st_act(st_entry(s2, freed(s2.e)), IpcAction::NotifySendOnce { port: p });
                (KERN_SUCCESS, st_notify(s3, 0, 0, dn, name))
            }
        }
    } else if right == MACH_PORT_RIGHT_DEAD_NAME {
        let (ok, s1) = if bits & MACH_PORT_TYPE_SEND_RIGHTS != 0 {
            let (dead, t1) = st_check(s);
            (dead, t1)
        } else {
            (bits & MACH_PORT_TYPE_DEAD_NAME != 0, s)
        };
        if !ok {
            (KERN_INVALID_RIGHT, s1)
        } else {
            let urefs = ie_urefs(s1.e.ie_bits);
            if urefs_underflow(urefs, delta) {
                (KERN_INVALID_VALUE, s1)
            } else if urefs_overflow(urefs, delta) {
                (KERN_UREFS_OVERFLOW, s1)
            } else if urefs + delta == 0 {
                (KERN_SUCCESS, st_entry(s1, freed(s1.e)))
            } else {
                (KERN_SUCCESS, st_entry(s1, ipc_entry { ie_bits: (s1.e.ie_bits + delta) as u32, ..s1.e }))
            }
        }
    } else {
        // right == MACH_PORT_RIGHT_SEND
        let urefs = ie_urefs(bits);
        if bits & MACH_PORT_TYPE_SEND == 0 {
            (KERN_INVALID_RIGHT, s)
        } else if urefs_underflow(urefs, delta) {
            (KERN_INVALID_VALUE, s)
        } else if urefs_overflow((urefs + 1) as u32, delta) {
            (KERN_UREFS_OVERFLOW, s)
        } else {
            let (dead, s1) = st_check(s);
            if dead {
                (KERN_INVALID_RIGHT, s1)
            } else if urefs + delta == 0 {
                let (ns, msc, s2) = st_drop_send(s1, p);
                if bits & MACH_PORT_TYPE_RECEIVE != 0 {
                    let s3 = st_entry(s2, ipc_entry { ie_bits: bits & !(IE_BITS_UREFS_MASK | MACH_PORT_TYPE_SEND), ..s2.e });
                    (KERN_SUCCESS, st_notify(s3, ns, msc, 0, name))
                } else {
                    let (dn, s3) = st_dncancel(s2);
                    let s4 = st_act(s3, IpcAction::ReverseRemove { port: p });
                    let s5 = if bits & IE_BITS_MAREQUEST != 0 { st_act(s4, IpcAction::CancelMarequest { name }) } else { s4 };
                    let s6 = st_ip_release(s5, p);
                    let s7 = st_entry(s6, freed(s6.e));
                    (KERN_SUCCESS, st_notify(s7, ns, msc, dn, name))
                }
            } else {
                (KERN_SUCCESS, st_entry(s1, ipc_entry { ie_bits: (bits + delta) as u32, ..s1.e }))
            }
        }
    }
}

/// Add `delta` to the bits of an entry whose user references stay in range.
fn add_urefs(bits: u32, delta: i32) -> (r: u32)
    requires
        0 <= ie_urefs(bits) + delta <= MACH_PORT_UREFS_MAX,
    ensures
        r == bits + delta,
        ie_urefs(r) == ie_urefs(bits) + delta,
        r & 0x003f_0000u32 == bits & 0x003f_0000u32,
        ie_type(r) == ie_type(bits),
{
    proof { lemma_entry_bits(bits); }
    if delta >= 0 {
        let d = delta as u32;
        proof { lemma_urefs_shift(bits, d); }
        bits + d
    } else {
        let d = (0i64 - delta as i64) as u32;
        proof { lemma_urefs_shift(bits, d); }
        bits - d
    }
}

/// `ipc_right_delta`: change by `delta` the user references of the right
/// `right` held by entry `idx` of an active space.
pub fn ipc_right_delta(
    space: &mut ipc_space,
    idx: usize,
    ports: &mut Vec<ipc_port>,
    acts: &mut Vec<IpcAction>,
    right: mach_port_right_t,
    delta: mach_port_delta_t,
) -> (kr: kern_return_t)
    requires
        old(space).is_active,
        idx < old(space).is_entries.len(),
        right < 5,
        entry_ok(old(space).is_entries[idx as int], pv(*old(ports))),
        old(space).is_entries[idx as int].ie_bits & MACH_PORT_TYPE_RECEIVE != 0 ==> ({
            let q = pv(*old(ports))[old(space).is_entries[idx as int].ie_object as int];
            q.active && q.receiver_name == old(space).is_entries[idx as int].ie_name
                && q.receiver == old(space).is_id
        }),
    ensures
        (kr, rstate(*final(space), idx, *final(ports), *final(acts)))
            == st_delta(rstate(*old(space), idx, *old(ports), *old(acts)), right, delta),
        space_frame(*old(space), *final(space), idx),
        final(ports).len() == old(ports).len(),
{
    let ghost s0 = rstate(*space, idx, *ports, *acts);
    let e = get_entry(space, idx);
    let bits = e.ie_bits;
    let p = e.ie_object;
    let name = e.ie_name;
    proof { lemma_entry_bits(bits); lemma_type_bits(bits); }
    if right == MACH_PORT_RIGHT_PORT_SET {
        if bits & MACH_PORT_TYPE_PORT_SET == 0 {
            proof { lemma_frame(*old(space), *space, idx); }
            return KERN_INVALID_RIGHT;
        }
        if delta == 0 {
            proof { lemma_frame(*old(space), *space, idx); }
            return KERN_SUCCESS;
        }
        if delta != -1 {
            proof { lemma_frame(*old(space), *space, idx); }
            return KERN_INVALID_VALUE;
        }
        set_entry(space, idx, ipc_entry { ie_name: name, ie_bits: 0, ie_object: 0, ie_request: 0 });
        acts.push(IpcAction::DestroyPortSet { pset: p });
        assert(rstate(*space, idx, *ports, *acts) =~= st_delta(s0, right, delta).1);
        return KERN_SUCCESS;
    } else if right == MACH_PORT_RIGHT_RECEIVE {
        if bits & MACH_PORT_TYPE_RECEIVE == 0 {
            proof { lemma_frame(*old(space), *space, idx); }
            return KERN_INVALID_RIGHT;
        }
        if delta == 0 {
            proof { lemma_frame(*old(space), *space, idx); }
            return KERN_SUCCESS;
        }
        if delta != -1 {
            proof { lemma_frame(*old(space), *space, idx); }
            return KERN_INVALID_VALUE;
        }
        let mut b = bits;
        if b & IE_BITS_MAREQUEST != 0 {
            b = b & !IE_BITS_MAREQUEST;
            acts.push(IpcAction::CancelMarequest { name });
        }
        let mut dn: u32 = 0;
        if b & MACH_PORT_TYPE_SEND != 0 {
            let mut b2 = (b & !IE_BITS_TYPE_MASK) | MACH_PORT_TYPE_DEAD_NAME;
            if e.ie_request != 0 {
                proof { lemma_entry_bits(b); lemma_entry_bits(b2); }
                b2 = b2 + 1;
            }
            set_entry(space, idx, ipc_entry { ie_name: name, ie_bits: b2, ie_object: 0, ie_request: 0 });
        } else {
            dn = ipc_right_dncancel(space, idx, ports, acts);
            set_entry(space, idx, ipc_entry { ie_name: name, ie_bits: 0, ie_object: 0, ie_request: 0 });
        }
        acts.push(IpcAction::DestroyPort { port: p });
        push_notify(acts, 0, 0, dn, name);
        assert(rstate(*space, idx, *ports, *acts) =~= st_delta(s0, right, delta).1);
        proof { lemma_frame(*old(space), *space, idx); }
        return KERN_SUCCESS;
    } else if right == MACH_PORT_RIGHT_SEND_ONCE {
        if bits & MACH_PORT_TYPE_SEND_ONCE == 0 {
            proof { lemma_frame(*old(space), *space, idx); }
            return KERN_INVALID_RIGHT;
        }
        if delta > 0 || delta < -1 {
            proof { lemma_frame(*old(space), *space, idx); }
            return KERN_INVALID_VALUE;
        }
        if ipc_right_check(space, idx, ports, acts) {
            return KERN_INVALID_RIGHT;
        }
        if delta == 0 {
            return KERN_SUCCESS;
        }
        let dn = ipc_right_dncancel(space, idx, ports, acts);
        set_entry(space, idx, ipc_entry { ie_name: name, ie_bits: 0, ie_object: 0, ie_request: 0 });
        acts.push(IpcAction::NotifySendOnce { port: p });
        push_notify(acts, 0, 0, dn, name);
        assert(rstate(*space, idx, *ports, *acts) =~= st_delta(s0, right, delta).1);
        proof { lemma_frame(*old(space), *space, idx); }
        return KERN_SUCCESS;
    } else if right == MACH_PORT_RIGHT_DEAD_NAME {
        let mut b = bits;
        if bits & MACH_PORT_TYPE_SEND_RIGHTS != 0 {
            if !ipc_right_check(space, idx, ports, acts) {
                return KERN_INVALID_RIGHT;
            }
            proof { lemma_dead_bits(bits, e.ie_request); }
            b = get_entry(space, idx).ie_bits;
        } else if bits & MACH_PORT_TYPE_DEAD_NAME == 0 {
            proof { lemma_frame(*old(space), *space, idx); }
            return KERN_INVALID_RIGHT;
        }
        let urefs = ie_bits_urefs(b);
        if mach_port_urefs_underflow(urefs, delta) {
            proof { lemma_frame(*old(space), *space, idx); }
            return KERN_INVALID_VALUE;
        }
        if mach_port_urefs_overflow(urefs, delta) {
            proof { lemma_frame(*old(space), *space, idx); }
            return KERN_UREFS_OVERFLOW;
        }
        let e1 = get_entry(space, idx);
        if urefs as i64 + delta as i64 == 0 {
            set_entry(space, idx, ipc_entry { ie_name: name, ie_bits: 0, ie_object: 0, ie_request: 0 });
        } else {
            let nb = add_urefs(b, delta);
            set_entry(space, idx, ipc_entry { ie_bits: nb, ..e1 });
        }
        assert(rstate(*space, idx, *ports, *acts) =~= st_delta(s0, right, delta).1);
        proof { lemma_frame(*old(space), *space, idx); }
        return KERN_SUCCESS;
    }
    // MACH_PORT_RIGHT_SEND
    if bits & MACH_PORT_TYPE_SEND == 0 {
        proof { lemma_frame(*old(space), *space, idx); }
        return KERN_INVALID_RIGHT;
    }
    let urefs = ie_bits_urefs(bits);
    if mach_port_urefs_underflow(urefs, delta) {
        proof { lemma_frame(*old(space), *space, idx); }
        return KERN_INVALID_VALUE;
    }
    if mach_port_urefs_overflow(urefs + 1, delta) {
        proof { lemma_frame(*old(space), *space, idx); }
        return KERN_UREFS_OVERFLOW;
    }
    if ipc_right_check(space, idx, ports, acts) {
        return KERN_INVALID_RIGHT;
    }
    if urefs as i64 + delta as i64 == 0 {
        let (ns, msc) = port_drop_send(ports, p, Ghost(rstate(*space, idx, *ports, *acts)));
        if bits & MACH_PORT_TYPE_RECEIVE != 0 {
            set_entry(space, idx, ipc_entry { ie_bits: bits & !(IE_BITS_UREFS_MASK | MACH_PORT_TYPE_SEND), ..e });
            push_notify(acts, ns, msc, 0, name);
        } else {
            assert(pv(*ports)[p as int].references == old(ports)[p as int].ip_references);
            let dn = ipc_right_dncancel(space, idx, ports, acts);
            assert(pv(*ports)[p as int].references == old(ports)[p as int].ip_references);
            acts.push(IpcAction::ReverseRemove { port: p });
            if bits & IE_BITS_MAREQUEST != 0 {
                acts.push(IpcAction::CancelMarequest { name });
            }
            port_ip_release(ports, p);
            set_entry(space, idx, ipc_entry { ie_name: name, ie_bits: 0, ie_object: 0, ie_request: 0 });
            push_notify(acts, ns, msc, dn, name);
        }
    } else {
        let nb = add_urefs(bits, delta);
        set_entry(space, idx, ipc_entry { ie_bits: nb, ..e });
    }
    assert(rstate(*space, idx, *ports, *acts) =~= st_delta(s0, right, delta).1);
    proof { lemma_frame(*old(space), *space, idx); }
    KERN_SUCCESS
}

/// The right types an entry in use can have.
pub open spec fn valid_type(t: u32) -> bool {
    t == MACH_PORT_TYPE_SEND || t == MACH_PORT_TYPE_RECEIVE || t == MACH_PORT_TYPE_SEND_RECEIVE
        || t == MACH_PORT_TYPE_SEND_ONCE || t == MACH_PORT_TYPE_PORT_SET || t == MACH_PORT_TYPE_DEAD_NAME
}

/// What is left to do for a port right once its entry let go of it: give
/// up the send right, then destroy the port (receive right), notify the
/// send-once right's holder, or drop the reference (send right).
pub open spec fn st_port_right_gone(s: RState, t: u32, p: u32) -> (u32, u32, RState) {
    let (ns, msc, s1) = if t & MACH_PORT_TYPE_SEND != 0 { st_drop_send(s, p) } else { (0u32, 0u32, s) };
    let s2 = if t & MACH_PORT_TYPE_RECEIVE != 0 {
        st_act(s1, IpcAction::DestroyPort { port: p })
    } else if t & MACH_PORT_TYPE_SEND_ONCE != 0 {
        st_act(s1, IpcAction::NotifySendOnce { port: p })
    } else {
        st_ip_release(s1, p)
    };
    (ns, msc, s2)
}

/// `ipc_right_destroy`: destroy the entry and the right it names.
pub open spec fn st_destroy(s: RState) -> RState {
    let bits = s.e.ie_bits;
    let t = ie_type(bits);
    let p = s.e.ie_object;
    let name = s.e.ie_name;
    if t == MACH_PORT_TYPE_DEAD_NAME {
        st_entry(s, freed(s.e))
    } else if t == MACH_PORT_TYPE_PORT_SET {
        st_act(st_entry(s, freed(s.e)), IpcAction::DestroyPortSet { pset: p })
    } else {
        let s1 = if bits & IE_BITS_MAREQUEST != 0 { st_act(s, IpcAction::CancelMarequest { name }) } else { s };
        let s2 = if t == MACH_PORT_TYPE_SEND { st_act(s1, IpcAction::ReverseRemove { port: p }) } else { s1 };
        if !s.ports[p as int].active {
            let s3 = st_release(s2, p);
            st_entry(s3, freed(s3.e))
        } else {
            let (dn, s3) = st_dncancel(s2);
            let s4 = st_entry(s3, freed(s3.e));
            let (ns, msc, s5) = st_port_right_gone(s4, t, p);
            st_notify(s5, ns, msc, dn, name)
        }
    }
}

/// Exec form of `st_port_right_gone`.
fn port_right_gone(ports: &mut Vec<ipc_port>, acts: &mut Vec<IpcAction>, t: u32, p: u32, Ghost(s): Ghost<RState>) -> (r: (u32, u32))
    requires
        p < old(ports).len(),
        s.ports == pv(*old(ports)),
        s.acts == old(acts)@,
        t & MACH_PORT_TYPE_SEND != 0 ==> old(ports)[p as int].ip_srights > 0,
        t & MACH_PORT_TYPE_RECEIVE == 0 && t & MACH_PORT_TYPE_SEND_ONCE == 0 ==> old(ports)[p as int].ip_references > 0,
    ensures
        final(ports).len() == old(ports).len(),
        (r.0, r.1, RState { ports: pv(*final(ports)), acts: final(acts)@, ..s }) == st_port_right_gone(s, t, p),
{
    let mut ns: u32 = 0;
    let mut msc: u32 = 0;
    if t & MACH_PORT_TYPE_SEND != 0 {
        let r = port_drop_send(ports, p, Ghost(s));
        ns = r.0;
        msc = r.1;
    }
    assert(pv(*ports)[p as int].references == old(ports)[p as int].ip_references);
    if t & MACH_PORT_TYPE_RECEIVE != 0 {
        acts.push(IpcAction::DestroyPort { port: p });
    } else if t & MACH_PORT_TYPE_SEND_ONCE != 0 {
        acts.push(IpcAction::NotifySendOnce { port: p });
    } else {
        port_ip_release(ports, p);
    }
    assert(RState { ports: pv(*ports), acts: acts@, ..s } =~= st_port_right_gone(s, t, p).2);
    (ns, msc)
}

/// `ipc_right_destroy`: destroy entry `idx` of an active space and the
/// right it names.
pub fn ipc_right_destroy(space: &mut ipc_space, idx: usize, ports: &mut Vec<ipc_port>, acts: &mut Vec<IpcAction>) -> (kr: kern_return_t)
    requires
        old(space).is_active,
        idx < old(space).is_entries.len(),
        valid_type(ie_type(old(space).is_entries[idx as int].ie_bits)),
        entry_ok(old(space).is_entries[idx as int], pv(*old(ports))),
    ensures
        kr == KERN_SUCCESS,
        rstate(*final(space), idx, *final(ports), *final(acts)) == st_destroy(rstate(*old(space), idx, *old(ports), *old(acts))),
        space_frame(*old(space), *final(space), idx),
        final(ports).len() == old(ports).len(),
{
    let ghost s0 = rstate(*space, idx, *ports, *acts);
    let e = get_entry(space, idx);
    let bits = e.ie_bits;
    let t = ie_bits_type(bits);
    let p = e.ie_object;
    let name = e.ie_name;
    proof { lemma_entry_bits(bits); lemma_type_bits(bits); }
    if t == MACH_PORT_TYPE_DEAD_NAME {
        set_entry(space, idx, ipc_entry { ie_name: name, ie_bits: 0, ie_object: 0, ie_request: 0 });
    } else if t == MACH_PORT_TYPE_PORT_SET {
        set_entry(space, idx, ipc_entry { ie_name: name, ie_bits: 0, ie_object: 0, ie_request: 0 });
        acts.push(IpcAction::DestroyPortSet { pset: p });
    } else {
        assert(bits & MACH_PORT_TYPE_PORT_RIGHTS != 0);
        if bits & IE_BITS_MAREQUEST != 0 {
            acts.push(IpcAction::CancelMarequest { name });
        }
        if t == MACH_PORT_TYPE_SEND {
            acts.push(IpcAction::ReverseRemove { port: p });
        }
        if !ports[p as usize].ip_active {
            ipc_port_release(ports, p, acts);
            set_entry(space, idx, ipc_entry { ie_name: name, ie_bits: 0, ie_object: 0, ie_request: 0 });
        } else {
            let dn = ipc_right_dncancel(space, idx, ports, acts);
            set_entry(space, idx, ipc_entry { ie_name: name, ie_bits: 0, ie_object: 0, ie_request: 0 });
            proof { lemma_type_bits(t); }
            assert(pv(*ports)[p as int].srights == old(ports)[p as int].ip_srights);
            assert(pv(*ports)[p as int].references == old(ports)[p as int].ip_references);
            let (ns, msc) = port_right_gone(ports, acts, t, p, Ghost(rstate(*space, idx, *ports, *acts)));
            push_notify(acts, ns, msc, dn, name);
        }
    }
    assert(rstate(*space, idx, *ports, *acts) =~= st_destroy(s0));
    proof { lemma_frame(*old(space), *space, idx); }
    KERN_SUCCESS
}

/// `ipc_right_clean`: while a dead space is torn down, let go of the right
/// named by the entry (the entry itself is freed by the caller).
pub open spec fn st_clean(s: RState) -> RState {
    let bits = s.e.ie_bits;
    let t = ie_type(bits);
    let p = s.e.ie_object;
    let name = s.e.ie_name;
    if t == MACH_PORT_TYPE_DEAD_NAME {
        s
    } else if t == MACH_PORT_TYPE_PORT_SET {
        st_act(s, IpcAction::DestroyPortSet { pset: p })
    } else if !s.ports[p as int].active {
        st_release(s, p)
    } else {
        let (dn, s1) = st_dncancel(s);
        let (ns, msc, s2) = st_port_right_gone(s1, t, p);
        st_notify(s2, ns, msc, dn, name)
    }
}

/// `ipc_right_clean`: let go of the right named by entry `idx` of a space
/// that is being destroyed.
pub fn ipc_right_clean(space: &mut ipc_space, idx: usize, ports: &mut Vec<ipc_port>, acts: &mut Vec<IpcAction>)
    requires
        !old(space).is_active,
        idx < old(space).is_entries.len(),
        valid_type(ie_type(old(space).is_entries[idx as int].ie_bits)),
        entry_ok(old(space).is_entries[idx as int], pv(*old(ports))),
    ensures
        rstate(*final(space), idx, *final(ports), *final(acts)) == st_clean(rstate(*old(space), idx, *old(ports), *old(acts))),
        space_frame(*old(space), *final(space), idx),
        final(ports).len() == old(ports).len(),
{
    let ghost s0 = rstate(*space, idx, *ports, *acts);
    let e = get_entry(space, idx);
    let bits = e.ie_bits;
    let t = ie_bits_type(bits);
    let p = e.ie_object;
    let name = e.ie_name;
    proof { lemma_entry_bits(bits); lemma_type_bits(bits); }
    if t == MACH_PORT_TYPE_DEAD_NAME {
    } else if t == MACH_PORT_TYPE_PORT_SET {
        acts.push(IpcAction::DestroyPortSet { pset: p });
    } else {
        assert(bits & MACH_PORT_TYPE_PORT_RIGHTS != 0);
        if !ports[p as usize].ip_active {
            ipc_port_release(ports, p, acts);
        } else {
            let dn = ipc_right_dncancel(space, idx, ports, acts);
            proof { lemma_type_bits(t); }
            assert(pv(*ports)[p as int].srights == old(ports)[p as int].ip_srights);
            assert(pv(*ports)[p as int].references == old(ports)[p as int].ip_references);
            let (ns, msc) = port_right_gone(ports, acts, t, p, Ghost(rstate(*space, idx, *ports, *acts)));
            push_notify(acts, ns, msc, dn, name);
        }
    }
    assert(rstate(*space, idx, *ports, *acts) =~= st_clean(s0));
    proof { lemma_frame(*old(space), *space, idx); }
}

/// The type `ipc_right_info` reports for an entry: its right type, with the
/// request flags of pending dead-name and msg-accepted requests.
pub open spec fn reported_type(e: ipc_entry) -> u32 {
    let t0 = ie_type(e.ie_bits);
    let t1 = if e.ie_request != 0 { t0 | MACH_PORT_TYPE_DNREQUEST } else { t0 };
    if e.ie_bits & IE_BITS_MAREQUEST != 0 { t1 | MACH_PORT_TYPE_MAREQUEST } else { t1 }
}

/// `ipc_right_info`: the type and user references of the right named by
/// the entry, after turning a right to a dead port into a dead name.
pub open spec fn st_info(s: RState) -> (u32, u32, RState) {
    let s1 = if s.e.ie_bits & MACH_PORT_TYPE_SEND_RIGHTS != 0 { st_check(s).1 } else { s };
    (reported_type(s1.e), ie_urefs(s1.e.ie_bits), s1)
}

/// `ipc_right_info`: report the type and user references of entry `idx`.
pub fn ipc_right_info(space: &mut ipc_space, idx: usize, ports: &mut Vec<ipc_port>, acts: &mut Vec<IpcAction>)
    -> (r: (kern_return_t, mach_port_type_t, mach_port_urefs_t))
    requires
        old(space).is_active,
        idx < old(space).is_entries.len(),
        entry_ok(old(space).is_entries[idx as int], pv(*old(ports))),
    ensures
        r.0 == KERN_SUCCESS,
        (r.1, r.2, rstate(*final(space), idx, *final(ports), *final(acts))) == st_info(rstate(*old(space), idx, *old(ports), *old(acts))),
        space_frame(*old(space), *final(space), idx),
        final(ports).len() == old(ports).len(),
{
    let bits0 = get_entry(space, idx).ie_bits;
    proof { lemma_type_bits(bits0); }
    if bits0 & MACH_PORT_TYPE_SEND_RIGHTS != 0 {
        let _ = ipc_right_check(space, idx, ports, acts);
    } else {
        proof { lemma_frame(*old(space), *space, idx); }
    }
    let e = get_entry(space, idx);
    let mut t = ie_bits_type(e.ie_bits);
    if e.ie_request != 0 {
        t = t | MACH_PORT_TYPE_DNREQUEST;
    }
    if e.ie_bits & IE_BITS_MAREQUEST != 0 {
        t = t | MACH_PORT_TYPE_MAREQUEST;
    }
    (KERN_SUCCESS, t, ie_bits_urefs(e.ie_bits))
}

/// `ipc_right_inuse`: does the entry hold a right?
pub fn ipc_right_inuse(space: &ipc_space, idx: usize) -> (r: bool)
    requires idx < space.is_entries.len(),
    ensures r == (ie_type(space.is_entries[idx as int].ie_bits) != MACH_PORT_TYPE_NONE),
{
    ie_bits_type(space.is_entries[idx].ie_bits) != MACH_PORT_TYPE_NONE
}

/// The object value that stands for a dead port.
pub const IO_DEAD: u32 = 0xFFFF_FFFF;
/// The object value that stands for no object.
pub const IO_NULL: u32 = 0;

/// The port's counters have room for the increments a copy-in makes.
pub open spec fn port_room(q: PortModel) -> bool {
    &&& q.references <= u32::MAX - 2
    &&& q.srights <= u32::MAX - 2
    &&& q.sorights < u32::MAX
    &&& q.mscount < u32::MAX
}

/// `ipc_right_copyin_check`: could the entry supply a right of kind
/// `msgt_name` (counting a dead port as acceptable for send kinds)?
pub open spec fn copyin_check_spec(e: ipc_entry, ports: Seq<PortModel>, msgt_name: u32) -> bool {
    let bits = e.ie_bits;
    if msgt_name == MACH_MSG_TYPE_MAKE_SEND || msgt_name == MACH_MSG_TYPE_MAKE_SEND_ONCE
        || msgt_name == MACH_MSG_TYPE_MOVE_RECEIVE {
        bits & MACH_PORT_TYPE_RECEIVE != 0
    } else if bits & MACH_PORT_TYPE_DEAD_NAME != 0 {
        true
    } else if bits & MACH_PORT_TYPE_SEND_RIGHTS == 0 {
        false
    } else if !ports[e.ie_object as int].active {
        true
    } else if msgt_name == MACH_MSG_TYPE_MOVE_SEND_ONCE {
        bits & MACH_PORT_TYPE_SEND_ONCE != 0
    } else {
        bits & MACH_PORT_TYPE_SEND != 0
    }
}

/// The message type names a right can be copied in as.
pub open spec fn copyin_name(msgt_name: u32) -> bool {
    MACH_MSG_TYPE_MOVE_RECEIVE <= msgt_name <= MACH_MSG_TYPE_MAKE_SEND_ONCE
}

/// `ipc_right_copyin_check`.
pub fn ipc_right_copyin_check(space: &ipc_space, idx: usize, ports: &Vec<ipc_port>, msgt_name: mach_msg_type_name_t) -> (r: bool)
    requires
        idx < space.is_entries.len(),
        copyin_name(msgt_name),
        entry_ok(space.is_entries[idx as int], pv(*ports)),
    ensures
        r == copyin_check_spec(space.is_entries[idx as int], pv(*ports), msgt_name),
{
    let e = get_entry(space, idx);
    let bits = e.ie_bits;
    if msgt_name == MACH_MSG_TYPE_MAKE_SEND || msgt_name == MACH_MSG_TYPE_MAKE_SEND_ONCE
        || msgt_name == MACH_MSG_TYPE_MOVE_RECEIVE {
        return bits & MACH_PORT_TYPE_RECEIVE != 0;
    }
    if bits & MACH_PORT_TYPE_DEAD_NAME != 0 {
        return true;
    }
    if bits & MACH_PORT_TYPE_SEND_RIGHTS == 0 {
        return false;
    }
    proof { lemma_type_bits(bits); }
    if !ports[e.ie_object as usize].ip_active {
        return true;
    }
    if msgt_name == MACH_MSG_TYPE_MOVE_SEND_ONCE {
        bits & MACH_PORT_TYPE_SEND_ONCE != 0
    } else {
        bits & MACH_PORT_TYPE_SEND != 0
    }
}

/// A dead name copied in by `copy_send`: accepted only when dead names are.
pub open spec fn st_copy_dead(s: RState, deadok: bool) -> (i32, u32, u32, RState) {
    if !deadok { (KERN_INVALID_RIGHT, IO_NULL, 0, s) } else { (KERN_SUCCESS, IO_DEAD, 0, s) }
}

/// A dead name moved in: one user reference of it goes with the message.
pub open spec fn st_move_dead(s: RState, deadok: bool) -> (i32, u32, u32, RState) {
    let bits = s.e.ie_bits;
    if !deadok {
        (KERN_INVALID_RIGHT, IO_NULL, 0, s)
    } else if ie_urefs(bits) == 1 {
        (KERN_SUCCESS, IO_DEAD, 0, st_entry(s, ipc_entry { ie_bits: bits & !MACH_PORT_TYPE_DEAD_NAME, ..s.e }))
    } else {
        (KERN_SUCCESS, IO_DEAD, 0, st_entry(s, dec_urefs(s.e)))
    }
}

pub open spec fn with_port(s: RState, p: u32, f: spec_fn(PortModel) -> PortModel) -> RState {
    st_port(s, p, f(s.ports[p as int]))
}

/// `ipc_right_copyin`: take a right of kind `msgt_name` out of the entry for
/// a message.  Returns the status, the object carried (`IO_DEAD` for a dead
/// name) and the port registered for the entry's dead-name notification
/// when the entry gives up its right (0 for none).
pub open spec fn st_copyin(s: RState, msgt_name: u32, deadok: bool) -> (i32, u32, u32, RState) {
    let bits = s.e.ie_bits;
    let p = s.e.ie_object;
    let name = s.e.ie_name;
    if msgt_name == MACH_MSG_TYPE_MAKE_SEND {
        if bits & MACH_PORT_TYPE_RECEIVE == 0 {
            (KERN_INVALID_RIGHT, IO_NULL, 0, s)
        } else {
            (KERN_SUCCESS, p, 0, with_port(s, p, |q: PortModel| PortModel {
                mscount: (q.mscount + 1) as u32, srights: (q.srights + 1) as u32,
                references: (q.references + 1) as u32, ..q }))
        }
    } else if msgt_name == MACH_MSG_TYPE_MAKE_SEND_ONCE {
        if bits & MACH_PORT_TYPE_RECEIVE == 0 {
            (KERN_INVALID_RIGHT, IO_NULL, 0, s)
        } else {
            (KERN_SUCCESS, p, 0, with_port(s, p, |q: PortModel| PortModel {
                sorights: (q.sorights + 1) as u32, references: (q.references + 1) as u32, ..q }))
        }
    } else if msgt_name == MACH_MSG_TYPE_MOVE_RECEIVE {
        if bits & MACH_PORT_TYPE_RECEIVE == 0 {
            (KERN_INVALID_RIGHT, IO_NULL, 0, s)
        } else {
            let (dn, s1) = if bits & MACH_PORT_TYPE_SEND != 0 {
                let t1 = st_act(s, IpcAction::ReverseInsert { port: p, name });
                (0u32, with_port(t1, p, |q: PortModel| PortModel { references: (q.references + 1) as u32, ..q }))
            } else {
                let (dn, t1) = st_dncancel(s);
                let t2 = if bits & IE_BITS_MAREQUEST != 0 { st_act(t1, IpcAction::CancelMarequest { name }) } else { t1 };
                (dn, st_entry(t2, ipc_entry { ie_object: 0, ..t2.e }))
            };
            let s2 = st_entry(s1, ipc_entry { ie_bits: bits & !MACH_PORT_TYPE_RECEIVE, ..s1.e });
            let s3 = st_act(s2, IpcAction::ClearReceiver { port: p });
            (KERN_SUCCESS, p, dn, with_port(s3, p, |q: PortModel| PortModel {
                mscount: 0, receiver_name: 0, receiver: 0, destination: 0, protected_payload: false, ..q }))
        }
    } else if msgt_name == MACH_MSG_TYPE_COPY_SEND {
        if bits & MACH_PORT_TYPE_DEAD_NAME != 0 {
            st_copy_dead(s, deadok)
        } else if bits & MACH_PORT_TYPE_SEND_RIGHTS == 0 {
            (KERN_INVALID_RIGHT, IO_NULL, 0, s)
        } else {
            let (dead, s1) = st_check(s);
            if dead {
                st_copy_dead(s1, deadok)
            } else if bits & MACH_PORT_TYPE_SEND == 0 {
                (KERN_INVALID_RIGHT, IO_NULL, 0, s)
            } else {
                (KERN_SUCCESS, p, 0, with_port(s, p, |q: PortModel| PortModel {
                    srights: (q.srights + 1) as u32, references: (q.references + 1) as u32, ..q }))
            }
        }
    } else if msgt_name == MACH_MSG_TYPE_MOVE_SEND {
        if bits & MACH_PORT_TYPE_DEAD_NAME != 0 {
            st_move_dead(s, deadok)
        } else if bits & MACH_PORT_TYPE_SEND_RIGHTS == 0 {
            (KERN_INVALID_RIGHT, IO_NULL, 0, s)
        } else {
            let (dead, s1) = st_check(s);
            if dead {
                st_move_dead(s1, deadok)
            } else if bits & MACH_PORT_TYPE_SEND == 0 {
                (KERN_INVALID_RIGHT, IO_NULL, 0, s)
            } else if ie_urefs(bits) == 1 {
                let (dn, s2) = if bits & MACH_PORT_TYPE_RECEIVE != 0 {
                    (0u32, with_port(s, p, |q: PortModel| PortModel { references: (q.references + 1) as u32, ..q }))
                } else {
                    let (dn, t1) = st_dncancel(s);
                    let t2 = st_act(t1, IpcAction::ReverseRemove { port: p });
                    let t3 = if bits & IE_BITS_MAREQUEST != 0 { st_act(t2, IpcAction::CancelMarequest { name }) } else { t2 };
                    (dn, st_entry(t3, ipc_entry { ie_object: 0, ..t3.e }))
                };
                (KERN_SUCCESS, p, dn, st_entry(s2, ipc_entry { ie_bits: bits & !(IE_BITS_UREFS_MASK | MACH_PORT_TYPE_SEND), ..s2.e }))
            } else {
                let s2 = with_port(s, p, |q: PortModel| PortModel {
                    srights: (q.srights + 1) as u32, references: (q.references + 1) as u32, ..q });
                (KERN_SUCCESS, p, 0, st_entry(s2, dec_urefs(s2.e)))
            }
        }
    } else {
        // MACH_MSG_TYPE_MOVE_SEND_ONCE
        if bits & MACH_PORT_TYPE_DEAD_NAME != 0 {
            st_move_dead(s, deadok)
        } else if bits & MACH_PORT_TYPE_SEND_RIGHTS == 0 {
            (KERN_INVALID_RIGHT, IO_NULL, 0, s)
        } else {
            let (dead, s1) = st_check(s);
            if dead {
                st_move_dead(s1, deadok)
            } else if bits & MACH_PORT_TYPE_SEND_ONCE == 0 {
                (KERN_INVALID_RIGHT, IO_NULL, 0, s)
            } else {
                let (dn, s2) = st_dncancel(s);
                (KERN_SUCCESS, p, dn, st_entry(s2, ipc_entry {
                    ie_object: 0, ie_bits: bits & !MACH_PORT_TYPE_SEND_ONCE, ..s2.e }))
            }
        }
    }
}

/// Exec form of `st_move_dead`.
fn move_dead(space: &mut ipc_space, idx: usize, deadok: bool, Ghost(s): Ghost<RState>) -> (r: (kern_return_t, u32, u32))
    requires
        idx < old(space).is_entries.len(),
        s.e == old(space).is_entries[idx as int],
        ie_urefs(s.e.ie_bits) >= 1,
    ensures
        (r.0, r.1, r.2, RState { e: final(space).is_entries[idx as int], ..s }) == st_move_dead(s, deadok),
        space_frame(*old(space), *final(space), idx),
{
    let e = get_entry(space, idx);
    if !deadok {
        proof { lemma_frame(*old(space), *space, idx); }
        return (KERN_INVALID_RIGHT, IO_NULL, 0);
    }
    proof { lemma_entry_bits(e.ie_bits); }
    if ie_bits_urefs(e.ie_bits) == 1 {
        set_entry(space, idx, ipc_entry { ie_bits: e.ie_bits & !MACH_PORT_TYPE_DEAD_NAME, ..e });
    } else {
        set_entry(space, idx, ipc_entry { ie_bits: e.ie_bits - 1, ..e });
    }
    assert(RState { e: space.is_entries[idx as int], ..s } =~= st_move_dead(s, deadok).3);
    (KERN_SUCCESS, IO_DEAD, 0)
}

/// `ipc_right_copyin`: take a right of kind `msgt_name` out of entry `idx`
/// of an active space for a message.
pub fn ipc_right_copyin(
    space: &mut ipc_space,
    idx: usize,
    ports: &mut Vec<ipc_port>,
    acts: &mut Vec<IpcAction>,
    msgt_name: mach_msg_type_name_t,
    deadok: bool,
) -> (r: (kern_return_t, u32, u32))
    requires
        old(space).is_active,
        idx < old(space).is_entries.len(),
        copyin_name(msgt_name),
        entry_ok(old(space).is_entries[idx as int], pv(*old(ports))),
        old(space).is_entries[idx as int].ie_bits & MACH_PORT_TYPE_PORT_RIGHTS != 0 ==>
            port_room(pv(*old(ports))[old(space).is_entries[idx as int].ie_object as int]),
    ensures
        (r.0, r.1, r.2, rstate(*final(space), idx, *final(ports), *final(acts)))
            == st_copyin(rstate(*old(space), idx, *old(ports), *old(acts)), msgt_name, deadok),
        space_frame(*old(space), *final(space), idx),
        final(ports).len() == old(ports).len(),
{
    let ghost s0 = rstate(*space, idx, *ports, *acts);
    let e = get_entry(space, idx);
    let bits = e.ie_bits;
    let p = e.ie_object;
    let name = e.ie_name;
    proof { lemma_entry_bits(bits); lemma_type_bits(bits); }
    if msgt_name == MACH_MSG_TYPE_MAKE_SEND || msgt_name == MACH_MSG_TYPE_MAKE_SEND_ONCE
        || msgt_name == MACH_MSG_TYPE_MOVE_RECEIVE {
        if bits & MACH_PORT_TYPE_RECEIVE == 0 {
            proof { lemma_frame(*old(space), *space, idx); }
            return (KERN_INVALID_RIGHT, IO_NULL, 0);
        }
        let m = get_port(ports, p);
        if msgt_name == MACH_MSG_TYPE_MAKE_SEND {
            set_port(ports, p, PortScalars { mscount: m.mscount + 1, srights: m.srights + 1, references: m.references + 1, ..m });
            assert(rstate(*space, idx, *ports, *acts) =~= st_copyin(s0, msgt_name, deadok).3);
            proof { lemma_frame(*old(space), *space, idx); }
            return (KERN_SUCCESS, p, 0);
        } else if msgt_name == MACH_MSG_TYPE_MAKE_SEND_ONCE {
            set_port(ports, p, PortScalars { sorights: m.sorights + 1, references: m.references + 1, ..m });
            assert(rstate(*space, idx, *ports, *acts) =~= st_copyin(s0, msgt_name, deadok).3);
            proof { lemma_frame(*old(space), *space, idx); }
            return (KERN_SUCCESS, p, 0);
        }
        // MOVE_RECEIVE
        let mut dn: u32 = 0;
        if bits & MACH_PORT_TYPE_SEND != 0 {
            acts.push(IpcAction::ReverseInsert { port: p, name });
            set_port(ports, p, PortScalars { references: m.references + 1, ..m });
        } else {
            dn = ipc_right_dncancel(space, idx, ports, acts);
            if bits & IE_BITS_MAREQUEST != 0 {
                acts.push(IpcAction::CancelMarequest { name });
            }
            let e1 = get_entry(space, idx);
            set_entry(space, idx, ipc_entry { ie_object: 0, ..e1 });
        }
        let e2 = get_entry(space, idx);
        set_entry(space, idx, ipc_entry { ie_bits: bits & !MACH_PORT_TYPE_RECEIVE, ..e2 });
        acts.push(IpcAction::ClearReceiver { port: p });
        let m2 = get_port(ports, p);
        set_port(ports, p, PortScalars { mscount: 0, receiver_name: 0, receiver: 0, destination: 0, protected_payload: false, ..m2 });
        assert(rstate(*space, idx, *ports, *acts) =~= st_copyin(s0, msgt_name, deadok).3);
        proof { lemma_frame(*old(space), *space, idx); }
        return (KERN_SUCCESS, p, dn);
    }
    // send kinds
    if bits & MACH_PORT_TYPE_DEAD_NAME != 0 {
        if msgt_name == MACH_MSG_TYPE_COPY_SEND {
            proof { lemma_frame(*old(space), *space, idx); }
            if !deadok {
                return (KERN_INVALID_RIGHT, IO_NULL, 0);
            }
            return (KERN_SUCCESS, IO_DEAD, 0);
        }
        let r = move_dead(space, idx, deadok, Ghost(s0));
        assert(rstate(*space, idx, *ports, *acts) =~= st_copyin(s0, msgt_name, deadok).3);
        return r;
    }
    if bits & MACH_PORT_TYPE_SEND_RIGHTS == 0 {
        proof { lemma_frame(*old(space), *space, idx); }
        return (KERN_INVALID_RIGHT, IO_NULL, 0);
    }
    if ipc_right_check(space, idx, ports, acts) {
        if msgt_name == MACH_MSG_TYPE_COPY_SEND {
            if !deadok {
                return (KERN_INVALID_RIGHT, IO_NULL, 0);
            }
            return (KERN_SUCCESS, IO_DEAD, 0);
        }
        proof { lemma_dead_bits(bits, e.ie_request); }
        let ghost s1 = rstate(*space, idx, *ports, *acts);
        let r = move_dead(space, idx, deadok, Ghost(s1));
        assert(rstate(*space, idx, *ports, *acts) =~= st_copyin(s0, msgt_name, deadok).3);
        proof { lemma_frame(*old(space), *space, idx); }
        return r;
    }
    let m = get_port(ports, p);
    if msgt_name == MACH_MSG_TYPE_COPY_SEND {
        if bits & MACH_PORT_TYPE_SEND == 0 {
            return (KERN_INVALID_RIGHT, IO_NULL, 0);
        }
        set_port(ports, p, PortScalars { srights: m.srights + 1, references: m.references + 1, ..m });
        assert(rstate(*space, idx, *ports, *acts) =~= st_copyin(s0, msgt_name, deadok).3);
        return (KERN_SUCCESS, p, 0);
    } else if msgt_name == MACH_MSG_TYPE_MOVE_SEND {
        if bits & MACH_PORT_TYPE_SEND == 0 {
            return (KERN_INVALID_RIGHT, IO_NULL, 0);
        }
        let mut dn: u32 = 0;
        if ie_bits_urefs(bits) == 1 {
            if bits & MACH_PORT_TYPE_RECEIVE != 0 {
                set_port(ports, p, PortScalars { references: m.references + 1, ..m });
            } else {
                dn = ipc_right_dncancel(space, idx, ports, acts);
                acts.push(IpcAction::ReverseRemove { port: p });
                if bits & IE_BITS_MAREQUEST != 0 {
                    acts.push(IpcAction::CancelMarequest { name });
                }
                let e1 = get_entry(space, idx);
                set_entry(space, idx, ipc_entry { ie_object: 0, ..e1 });
            }
            let e2 = get_entry(space, idx);
            set_entry(space, idx, ipc_entry { ie_bits: bits & !(IE_BITS_UREFS_MASK | MACH_PORT_TYPE_SEND), ..e2 });
        } else {
            set_port(ports, p, PortScalars { srights: m.srights + 1, references: m.references + 1, ..m });
            set_entry(space, idx, ipc_entry { ie_bits: bits - 1, ..e });
        }
        assert(rstate(*space, idx, *ports, *acts) =~= st_copyin(s0, msgt_name, deadok).3);
        proof { lemma_frame(*old(space), *space, idx); }
        return (KERN_SUCCESS, p, dn);
    }
    // MOVE_SEND_ONCE
    if bits & MACH_PORT_TYPE_SEND_ONCE == 0 {
        return (KERN_INVALID_RIGHT, IO_NULL, 0);
    }
    let dn = ipc_right_dncancel(space, idx, ports, acts);
    let e1 = get_entry(space, idx);
    set_entry(space, idx, ipc_entry { ie_object: 0, ie_bits: bits & !MACH_PORT_TYPE_SEND_ONCE, ..e1 });
    assert(rstate(*space, idx, *ports, *acts) =~= st_copyin(s0, msgt_name, deadok).3);
    proof { lemma_frame(*old(space), *space, idx); }
    (KERN_SUCCESS, p, dn)
}

/// `ipc_right_copyin_two`: take two send rights out of the entry at once.
pub open spec fn st_copyin_two(s: RState) -> (i32, u32, u32, RState) {
    let bits = s.e.ie_bits;
    let p = s.e.ie_object;
    let name = s.e.ie_name;
    let urefs = ie_urefs(bits);
    if bits & MACH_PORT_TYPE_SEND == 0 || urefs < 2 {
        (KERN_INVALID_RIGHT, IO_NULL, 0, s)
    } else {
        let (dead, s1) = st_check(s);
        if dead {
            (KERN_INVALID_RIGHT, IO_NULL, 0, s1)
        } else if urefs == 2 {
            let (dn, s2) = if bits & MACH_PORT_TYPE_RECEIVE != 0 {
                (0u32, with_port(s, p, |q: PortModel| PortModel {
                    srights: (q.srights + 1) as u32, references: (q.references + 2) as u32, ..q }))
            } else {
                let (dn, t1) = st_dncancel(s);
                let t2 = st_act(t1, IpcAction::ReverseRemove { port: p });
                let t3 = if bits & IE_BITS_MAREQUEST != 0 { st_act(t2, IpcAction::CancelMarequest { name }) } else { t2 };
                let t4 = with_port(t3, p, |q: PortModel| PortModel {
                    srights: (q.srights + 1) as u32, references: (q.references + 1) as u32, ..q });
                (dn, st_entry(t4, ipc_entry { ie_object: 0, ..t4.e }))
            };
            (KERN_SUCCESS, p, dn, st_entry(s2, ipc_entry { ie_bits: bits & !(IE_BITS_UREFS_MASK | MACH_PORT_TYPE_SEND), ..s2.e }))
        } else {
            let s2 = with_port(s, p, |q: PortModel| PortModel {
                srights: (q.srights + 2) as u32, references: (q.references + 2) as u32, ..q });
            (KERN_SUCCESS, p, 0, st_entry(s2, ipc_entry { ie_bits: (bits - 2) as u32, ..s2.e }))
        }
    }
}

/// `ipc_right_copyin_two`: take two send rights out of entry `idx` of an
/// active space.
pub fn ipc_right_copyin_two(space: &mut ipc_space, idx: usize, ports: &mut Vec<ipc_port>, acts: &mut Vec<IpcAction>)
    -> (r: (kern_return_t, u32, u32))
    requires
        old(space).is_active,
        idx < old(space).is_entries.len(),
        entry_ok(old(space).is_entries[idx as int], pv(*old(ports))),
        old(space).is_entries[idx as int].ie_bits & MACH_PORT_TYPE_PORT_RIGHTS != 0 ==>
            port_room(pv(*old(ports))[old(space).is_entries[idx as int].ie_object as int]),
    ensures
        (r.0, r.1, r.2, rstate(*final(space), idx, *final(ports), *final(acts)))
            == st_copyin_two(rstate(*old(space), idx, *old(ports), *old(acts))),
        space_frame(*old(space), *final(space), idx),
        final(ports).len() == old(ports).len(),
{
    let ghost s0 = rstate(*space, idx, *ports, *acts);
    let e = get_entry(space, idx);
    let bits = e.ie_bits;
    let p = e.ie_object;
    let name = e.ie_name;
    proof { lemma_entry_bits(bits); lemma_type_bits(bits); }
    if bits & MACH_PORT_TYPE_SEND == 0 {
        proof { lemma_frame(*old(space), *space, idx); }
        return (KERN_INVALID_RIGHT, IO_NULL, 0);
    }
    let urefs = ie_bits_urefs(bits);
    if urefs < 2 {
        proof { lemma_frame(*old(space), *space, idx); }
        return (KERN_INVALID_RIGHT, IO_NULL, 0);
    }
    if ipc_right_check(space, idx, ports, acts) {
        return (KERN_INVALID_RIGHT, IO_NULL, 0);
    }
    let mut dn: u32 = 0;
    if urefs == 2 {
        let m = get_port(ports, p);
        if bits & MACH_PORT_TYPE_RECEIVE != 0 {
            set_port(ports, p, PortScalars { srights: m.srights + 1, references: m.references + 2, ..m });
        } else {
            dn = ipc_right_dncancel(space, idx, ports, acts);
            acts.push(IpcAction::ReverseRemove { port: p });
            if bits & IE_BITS_MAREQUEST != 0 {
                acts.push(IpcAction::CancelMarequest { name });
            }
            let m1 = get_port(ports, p);
            set_port(ports, p, PortScalars { srights: m1.srights + 1, references: m1.references + 1, ..m1 });
            let e1 = get_entry(space, idx);
            set_entry(space, idx, ipc_entry { ie_object: 0, ..e1 });
        }
        let e2 = get_entry(space, idx);
        set_entry(space, idx, ipc_entry { ie_bits: bits & !(IE_BITS_UREFS_MASK | MACH_PORT_TYPE_SEND), ..e2 });
    } else {
        let m = get_port(ports, p);
        set_port(ports, p, PortScalars { srights: m.srights + 2, references: m.references + 2, ..m });
        proof { lemma_urefs_shift(bits, 2); }
        set_entry(space, idx, ipc_entry { ie_bits: bits - 2, ..e });
    }
    assert(rstate(*space, idx, *ports, *acts) =~= st_copyin_two(s0).3);
    proof { lemma_frame(*old(space), *space, idx); }
    (KERN_SUCCESS, p, dn)
}

/// `ipc_right_copyin_undo`: put back a right taken by `ipc_right_copyin`
/// when the message could not be sent, as a dead name where the right
/// itself cannot come back.
pub open spec fn st_copyin_undo(s: RState, msgt_name: u32, object: u32, soright: u32) -> RState {
    let bits = s.e.ie_bits;
    let t = ie_type(bits);
    let s1 = if soright != 0 {
        st_entry(s, ipc_entry { ie_bits: (bits & !IE_BITS_RIGHT_MASK) | MACH_PORT_TYPE_DEAD_NAME | 2, ..s.e })
    } else if t == MACH_PORT_TYPE_NONE {
        st_entry(s, ipc_entry { ie_bits: (bits & !IE_BITS_RIGHT_MASK) | MACH_PORT_TYPE_DEAD_NAME | 1, ..s.e })
    } else if t == MACH_PORT_TYPE_DEAD_NAME {
        if msgt_name != MACH_MSG_TYPE_COPY_SEND { st_entry(s, ipc_entry { ie_bits: (bits + 1) as u32, ..s.e }) } else { s }
    } else {
        let t1 = if msgt_name != MACH_MSG_TYPE_COPY_SEND { st_entry(s, ipc_entry { ie_bits: (bits + 1) as u32, ..s.e }) } else { s };
        st_check(t1).1
    };
    if object != IO_DEAD { st_release(s1, object) } else { s1 }
}

/// `ipc_right_copyin_undo` on entry `idx` of an active space.
pub fn ipc_right_copyin_undo(
    space: &mut ipc_space,
    idx: usize,
    ports: &mut Vec<ipc_port>,
    acts: &mut Vec<IpcAction>,
    msgt_name: mach_msg_type_name_t,
    object: u32,
    soright: u32,
)
    requires
        old(space).is_active,
        idx < old(space).is_entries.len(),
        ({
            let e = old(space).is_entries[idx as int];
            let t = ie_type(e.ie_bits);
            &&& (t == MACH_PORT_TYPE_DEAD_NAME || (soright == 0 && t != MACH_PORT_TYPE_NONE)) ==> ie_urefs(e.ie_bits) + 2 <= MACH_PORT_UREFS_MAX
            &&& soright == 0 && t != MACH_PORT_TYPE_NONE && t != MACH_PORT_TYPE_DEAD_NAME ==> {
                &&& e.ie_object == object
                &&& check_ok(e, pv(*old(ports)))
                &&& (!old(ports)[object as int].ip_active ==> old(ports)[object as int].ip_references > 1)
            }
        }),
        object != IO_DEAD ==> object < old(ports).len() && old(ports)[object as int].ip_references > 0,
    ensures
        rstate(*final(space), idx, *final(ports), *final(acts))
            == st_copyin_undo(rstate(*old(space), idx, *old(ports), *old(acts)), msgt_name, object, soright),
        space_frame(*old(space), *final(space), idx),
        final(ports).len() == old(ports).len(),
{
    let ghost s0 = rstate(*space, idx, *ports, *acts);
    let e = get_entry(space, idx);
    let bits = e.ie_bits;
    let t = ie_bits_type(bits);
    proof { lemma_entry_bits(bits); }
    if soright != 0 {
        set_entry(space, idx, ipc_entry { ie_bits: (bits & !IE_BITS_RIGHT_MASK) | MACH_PORT_TYPE_DEAD_NAME | 2, ..e });
    } else if t == MACH_PORT_TYPE_NONE {
        set_entry(space, idx, ipc_entry { ie_bits: (bits & !IE_BITS_RIGHT_MASK) | MACH_PORT_TYPE_DEAD_NAME | 1, ..e });
    } else if t == MACH_PORT_TYPE_DEAD_NAME {
        if msgt_name != MACH_MSG_TYPE_COPY_SEND {
            proof { lemma_urefs_shift(bits, 1); }
            set_entry(space, idx, ipc_entry { ie_bits: bits + 1, ..e });
        }
    } else {
        if msgt_name != MACH_MSG_TYPE_COPY_SEND {
            proof { lemma_urefs_shift(bits, 1); lemma_entry_bits((bits + 1) as u32); }
            set_entry(space, idx, ipc_entry { ie_bits: bits + 1, ..e });
        }
        let _ = ipc_right_check(space, idx, ports, acts);
    }
    if object != IO_DEAD {
        assert(pv(*ports)[object as int].references > 0);
        ipc_port_release(ports, object, acts);
    }
    assert(rstate(*space, idx, *ports, *acts) =~= st_copyin_undo(s0, msgt_name, object, soright));
    proof { lemma_frame(*old(space), *space, idx); }
}

/// `ipc_right_copyout`: give the entry a right of kind `msgt_name` carried
/// by a message (the entry already names the port).
pub open spec fn st_copyout(s: RState, space_id: u32, msgt_name: u32, overflow: bool) -> (i32, RState) {
    let bits = s.e.ie_bits;
    let p = s.e.ie_object;
    let name = s.e.ie_name;
    if msgt_name == MACH_MSG_TYPE_MOVE_SEND_ONCE {
        (KERN_SUCCESS, st_entry(s, ipc_entry { ie_bits: bits | (MACH_PORT_TYPE_SEND_ONCE | 1), ..s.e }))
    } else if msgt_name == MACH_MSG_TYPE_MOVE_SEND {
        if bits & MACH_PORT_TYPE_SEND != 0 && ie_urefs(bits) + 1 == MACH_PORT_UREFS_MAX {
            if overflow {
                (KERN_SUCCESS, st_ip_release(with_port(s, p, |q: PortModel| PortModel { srights: (q.srights - 1) as u32, ..q }), p))
            } else {
                (KERN_UREFS_OVERFLOW, s)
            }
        } else {
            let s1 = if bits & MACH_PORT_TYPE_SEND != 0 {
                st_ip_release(with_port(s, p, |q: PortModel| PortModel { srights: (q.srights - 1) as u32, ..q }), p)
            } else if bits & MACH_PORT_TYPE_RECEIVE != 0 {
                st_ip_release(s, p)
            } else {
                st_act(s, IpcAction::ReverseInsert { port: p, name })
            };
            (KERN_SUCCESS, st_entry(s1, ipc_entry { ie_bits: ((bits | MACH_PORT_TYPE_SEND) + 1) as u32, ..s1.e }))
        }
    } else {
        // MACH_MSG_TYPE_MOVE_RECEIVE
        let dest = s.ports[p as int].destination;
        let s1 = with_port(s, p, |q: PortModel| PortModel {
            receiver_name: name, receiver: space_id, destination: 0, protected_payload: false, ..q });
        let s2 = if bits & MACH_PORT_TYPE_SEND != 0 {
            st_act(st_ip_release(s1, p), IpcAction::ReverseRemove { port: p })
        } else {
            s1
        };
        let s3 = st_entry(s2, ipc_entry { ie_bits: bits | MACH_PORT_TYPE_RECEIVE, ..s2.e });
        (KERN_SUCCESS, if dest != 0 { st_release(s3, dest) } else { s3 })
    }
}

/// `ipc_right_copyout` into entry `idx` of an active space.
pub fn ipc_right_copyout(
    space: &mut ipc_space,
    idx: usize,
    ports: &mut Vec<ipc_port>,
    acts: &mut Vec<IpcAction>,
    msgt_name: mach_msg_type_name_t,
    overflow: bool,
    object: u32,
) -> (kr: kern_return_t)
    requires
        old(space).is_active,
        idx < old(space).is_entries.len(),
        MACH_MSG_TYPE_MOVE_RECEIVE <= msgt_name <= MACH_MSG_TYPE_MOVE_SEND_ONCE,
        ({
            let e = old(space).is_entries[idx as int];
            let q = old(ports)[object as int];
            &&& e.ie_object == object
            &&& 0 < object < old(ports).len()
            &&& q.ip_active
            &&& msgt_name == MACH_MSG_TYPE_MOVE_SEND ==> {
                &&& ie_urefs(e.ie_bits) < MACH_PORT_UREFS_MAX
                &&& (e.ie_bits & MACH_PORT_TYPE_SEND != 0 ==> q.ip_srights > 1 && q.ip_references > 1)
                &&& (e.ie_bits & MACH_PORT_TYPE_RECEIVE != 0 ==> q.ip_references > 1)
            }
            &&& msgt_name == MACH_MSG_TYPE_MOVE_RECEIVE ==> {
                &&& (e.ie_bits & MACH_PORT_TYPE_SEND != 0 ==> q.ip_references > 1)
                &&& (q.ip_destination != 0 ==> q.ip_destination < old(ports).len()
                    && (if q.ip_destination == object { q.ip_references > 2 } else { old(ports)[q.ip_destination as int].ip_references > 0 }))
            }
        }),
    ensures
        (kr, rstate(*final(space), idx, *final(ports), *final(acts)))
            == st_copyout(rstate(*old(space), idx, *old(ports), *old(acts)), old(space).is_id, msgt_name, overflow),
        space_frame(*old(space), *final(space), idx),
        final(ports).len() == old(ports).len(),
{
    let ghost s0 = rstate(*space, idx, *ports, *acts);
    let e = get_entry(space, idx);
    let bits = e.ie_bits;
    let p = object;
    let name = e.ie_name;
    proof { lemma_entry_bits(bits); }
    if msgt_name == MACH_MSG_TYPE_MOVE_SEND_ONCE {
        set_entry(space, idx, ipc_entry { ie_bits: bits | (MACH_PORT_TYPE_SEND_ONCE | 1), ..e });
        assert(rstate(*space, idx, *ports, *acts) =~= st_copyout(s0, old(space).is_id, msgt_name, overflow).1);
        proof { lemma_frame(*old(space), *space, idx); }
        return KERN_SUCCESS;
    } else if msgt_name == MACH_MSG_TYPE_MOVE_SEND {
        let m = get_port(ports, p);
        if bits & MACH_PORT_TYPE_SEND != 0 {
            let urefs = ie_bits_urefs(bits);
            if urefs + 1 == MACH_PORT_UREFS_MAX {
                if overflow {
                    set_port(ports, p, PortScalars { srights: m.srights - 1, references: m.references - 1, ..m });
                    assert(rstate(*space, idx, *ports, *acts) =~= st_copyout(s0, old(space).is_id, msgt_name, overflow).1);
                    proof { lemma_frame(*old(space), *space, idx); }
                    return KERN_SUCCESS;
                }
                proof { lemma_frame(*old(space), *space, idx); }
                return KERN_UREFS_OVERFLOW;
            }
            set_port(ports, p, PortScalars { srights: m.srights - 1, references: m.references - 1, ..m });
        } else if bits & MACH_PORT_TYPE_RECEIVE != 0 {
            set_port(ports, p, PortScalars { references: m.references - 1, ..m });
        } else {
            acts.push(IpcAction::ReverseInsert { port: p, name });
        }
        proof { lemma_send_bit_or(bits); }
        set_entry(space, idx, ipc_entry { ie_bits: (bits | MACH_PORT_TYPE_SEND) + 1, ..e });
        assert(rstate(*space, idx, *ports, *acts) =~= st_copyout(s0, old(space).is_id, msgt_name, overflow).1);
        proof { lemma_frame(*old(space), *space, idx); }
        return KERN_SUCCESS;
    }
    // MACH_MSG_TYPE_MOVE_RECEIVE
    let m = get_port(ports, p);
    let dest = m.destination;
    set_port(ports, p, PortScalars { receiver_name: name, receiver: space.is_id, destination: 0, protected_payload: false, ..m });
    if bits & MACH_PORT_TYPE_SEND != 0 {
        let m1 = get_port(ports, p);
        set_port(ports, p, PortScalars { references: m1.references - 1, ..m1 });
        acts.push(IpcAction::ReverseRemove { port: p });
    }
    set_entry(space, idx, ipc_entry { ie_bits: bits | MACH_PORT_TYPE_RECEIVE, ..e });
    if dest != 0 {
        assert(pv(*ports)[dest as int].references > 0);
        ipc_port_release(ports, dest, acts);
    }
    assert(rstate(*space, idx, *ports, *acts) =~= st_copyout(s0, old(space).is_id, msgt_name, overflow).1);
    proof { lemma_frame(*old(space), *space, idx); }
    KERN_SUCCESS
}

/// Setting the send bit keeps the user references, so one more fits.
proof fn lemma_send_bit_or(bits: u32)
    by (bit_vector)
    ensures
        (bits | 0x0001_0000u32) & 0xffffu32 == bits & 0xffffu32,
        bits & 0xffffu32 < 0xffff ==> (bits | 0x0001_0000u32) + 1 <= 0xFFFF_FFFFu32,
{
}

// ─── Space-level operations ──────────────────────────────────────

/// An entry in use: it holds some right.
pub open spec fn in_use(e: ipc_entry) -> bool {
    ie_type(e.ie_bits) != MACH_PORT_TYPE_NONE
}

/// The consistency of a space with the ports: names of entries in use are
/// unique and not null, each such entry has a proper right type and is consistent with
/// its port, and a receive right's port knows its name and space.
pub open spec fn space_ok(space: ipc_space, ports: Seq<PortModel>) -> bool {
    &&& names_unique(space)
    &&& forall|i: int| 0 <= i < space.is_entries.len() && #[trigger] in_use(space.is_entries[i]) ==> {
        let e = space.is_entries[i];
        &&& e.ie_name != MACH_PORT_NAME_NULL
        &&& valid_type(ie_type(e.ie_bits))
        &&& entry_ok(e, ports)
        &&& (e.ie_bits & MACH_PORT_TYPE_RECEIVE != 0 ==> {
            let q = ports[e.ie_object as int];
            q.active && q.receiver_name == e.ie_name && q.receiver == space.is_id
        })
    }
}

/// No two entries in use carry the same name.
pub open spec fn names_unique(space: ipc_space) -> bool {
    forall|i: int, j: int| #![trigger space.is_entries[i], space.is_entries[j]]
        0 <= i < j < space.is_entries.len() && in_use(space.is_entries[i]) && in_use(space.is_entries[j])
            ==> space.is_entries[i].ie_name != space.is_entries[j].ie_name
}

/// The position of the entry in use that carries `name`, if any.
pub open spec fn lookup_spec(space: ipc_space, name: u32) -> Option<int> {
    lookup_in(space.is_entries@, name)
}

/// The position of the entry in use among `entries` that carries `name`.
pub open spec fn lookup_in(entries: Seq<ipc_entry>, name: u32) -> Option<int> {
    if exists|i: int| 0 <= i < entries.len() && in_use(entries[i]) && entries[i].ie_name == name {
        Some(choose|i: int| 0 <= i < entries.len() && in_use(entries[i]) && entries[i].ie_name == name)
    } else {
        None
    }
}

/// `ipc_entry_lookup`: the entry in use named `name`.
pub fn ipc_entry_lookup(space: &ipc_space, name: mach_port_name_t) -> (r: Option<usize>)
    requires
        names_unique(*space),
    ensures
        match r {
            Some(i) => lookup_spec(*space, name) == Some(i as int) && i < space.is_entries.len()
                && in_use(space.is_entries[i as int]) && space.is_entries[i as int].ie_name == name,
            None => lookup_spec(*space, name) is None,
        },
{
    let mut i: usize = 0;
    while i < space.is_entries.len()
        invariant
            i <= space.is_entries.len(),
            names_unique(*space),
            forall|j: int| 0 <= j < i ==> !(in_use(space.is_entries[j]) && space.is_entries[j].ie_name == name),
        decreases space.is_entries.len() - i,
    {
        let e = &space.is_entries[i];
        if e.ie_name == name && ie_bits_type(e.ie_bits) != MACH_PORT_TYPE_NONE {
            proof {
                assert(in_use(space.is_entries[i as int]));
                assert forall|k: int| 0 <= k < space.is_entries.len() && in_use(space.is_entries[k]) && space.is_entries[k].ie_name == name
                    implies k == i as int by {
                    if k > i as int {
                        assert(space.is_entries[i as int].ie_name != space.is_entries[k].ie_name);
                    }
                }
            }
            return Some(i);
        }
        i = i + 1;
    }
    None
}

/// `ipc_right_lookup_write`: the position of the entry named `name` in an
/// active space.
pub fn ipc_right_lookup_write(space: &ipc_space, name: mach_port_name_t) -> (r: Result<usize, kern_return_t>)
    requires
        names_unique(*space),
    ensures
        !space.is_active ==> r == Err::<usize, kern_return_t>(KERN_INVALID_TASK),
        space.is_active && lookup_spec(*space, name) is None ==> r == Err::<usize, kern_return_t>(KERN_INVALID_NAME),
        space.is_active && lookup_spec(*space, name) is Some ==> r == Ok::<usize, kern_return_t>(lookup_spec(*space, name)->0 as usize),
{
    if !space.is_active {
        return Err(KERN_INVALID_TASK);
    }
    match ipc_entry_lookup(space, name) {
        Some(i) => Ok(i),
        None => Err(KERN_INVALID_NAME),
    }
}

/// `mach_port_type`: the type of the right named `name`.
pub fn mach_port_type(space: &mut ipc_space, ports: &mut Vec<ipc_port>, acts: &mut Vec<IpcAction>, name: mach_port_name_t)
    -> (r: (kern_return_t, mach_port_type_t))
    requires
        space_ok(*old(space), pv(*old(ports))),
    ensures
        !old(space).is_active ==> r.0 == KERN_INVALID_TASK && *final(space) == *old(space) && *final(ports) == *old(ports) && *final(acts) == *old(acts),
        old(space).is_active && lookup_spec(*old(space), name) is None ==> r.0 == KERN_INVALID_NAME && *final(space) == *old(space) && *final(ports) == *old(ports) && *final(acts) == *old(acts),
        old(space).is_active && lookup_spec(*old(space), name) is Some ==> {
            let i = lookup_spec(*old(space), name)->0 as usize;
            let (t, u, st) = st_info(rstate(*old(space), i, *old(ports), *old(acts)));
            &&& r == (KERN_SUCCESS, t)
            &&& st == rstate(*final(space), i, *final(ports), *final(acts))
            &&& space_frame(*old(space), *final(space), i)
        },
{
    match ipc_right_lookup_write(space, name) {
        Err(kr) => (kr, 0),
        Ok(i) => {
            let (kr, t, _u) = ipc_right_info(space, i, ports, acts);
            (kr, t)
        },
    }
}

/// `mach_port_get_refs`: the user references the entry named `name` holds
/// of the right `right` (one for a receive, send-once or port-set right,
/// none for a right it does not hold).
pub open spec fn refs_of(t: u32, urefs: u32, right: u32) -> u32 {
    if t & (1u32 << (right + 16) as u32) != 0 {
        if right == MACH_PORT_RIGHT_SEND_ONCE || right == MACH_PORT_RIGHT_PORT_SET || right == MACH_PORT_RIGHT_RECEIVE {
            1
        } else {
            urefs
        }
    } else {
        0
    }
}

/// `mach_port_get_refs`.
pub fn mach_port_get_refs(
    space: &mut ipc_space,
    ports: &mut Vec<ipc_port>,
    acts: &mut Vec<IpcAction>,
    name: mach_port_name_t,
    right: mach_port_right_t,
) -> (r: (kern_return_t, mach_port_urefs_t))
    requires
        space_ok(*old(space), pv(*old(ports))),
    ensures
        right >= 5 ==> r.0 == KERN_INVALID_VALUE && *final(space) == *old(space) && *final(ports) == *old(ports) && *final(acts) == *old(acts),
        right < 5 && !old(space).is_active ==> r.0 == KERN_INVALID_TASK && *final(space) == *old(space) && *final(ports) == *old(ports) && *final(acts) == *old(acts),
        right < 5 && old(space).is_active && lookup_spec(*old(space), name) is None ==> r.0 == KERN_INVALID_NAME && *final(space) == *old(space) && *final(ports) == *old(ports) && *final(acts) == *old(acts),
        right < 5 && old(space).is_active && lookup_spec(*old(space), name) is Some ==> {
            let i = lookup_spec(*old(space), name)->0 as usize;
            let (t, u, st) = st_info(rstate(*old(space), i, *old(ports), *old(acts)));
            &&& r == (KERN_SUCCESS, refs_of(t, u, right))
            &&& st == rstate(*final(space), i, *final(ports), *final(acts))
            &&& space_frame(*old(space), *final(space), i)
        },
{
    if right >= MACH_PORT_RIGHT_NUMBER {
        return (KERN_INVALID_VALUE, 0);
    }
    match ipc_right_lookup_write(space, name) {
        Err(kr) => (kr, 0),
        Ok(i) => {
            let (_kr, t, u) = ipc_right_info(space, i, ports, acts);
            let bit = 1u32 << (right + 16);
            if t & bit != 0 {
                if right == MACH_PORT_RIGHT_SEND_ONCE || right == MACH_PORT_RIGHT_PORT_SET || right == MACH_PORT_RIGHT_RECEIVE {
                    (KERN_SUCCESS, 1)
                } else {
                    (KERN_SUCCESS, u)
                }
            } else {
                (KERN_SUCCESS, 0)
            }
        },
    }
}

/// `mach_port_mod_refs`: change by `delta` the user references of right
/// `right` of the entry named `name`.
pub fn mach_port_mod_refs(
    space: &mut ipc_space,
    ports: &mut Vec<ipc_port>,
    acts: &mut Vec<IpcAction>,
    name: mach_port_name_t,
    right: mach_port_right_t,
    delta: mach_port_delta_t,
) -> (kr: kern_return_t)
    requires
        space_ok(*old(space), pv(*old(ports))),
    ensures
        right >= 5 ==> kr == KERN_INVALID_VALUE && *final(space) == *old(space) && *final(ports) == *old(ports) && *final(acts) == *old(acts),
        right < 5 && !old(space).is_active ==> kr == KERN_INVALID_TASK && *final(space) == *old(space) && *final(ports) == *old(ports) && *final(acts) == *old(acts),
        right < 5 && old(space).is_active && lookup_spec(*old(space), name) is None ==> kr == KERN_INVALID_NAME && *final(space) == *old(space) && *final(ports) == *old(ports) && *final(acts) == *old(acts),
        right < 5 && old(space).is_active && lookup_spec(*old(space), name) is Some ==> {
            let i = lookup_spec(*old(space), name)->0 as usize;
            let (k, st) = st_delta(rstate(*old(space), i, *old(ports), *old(acts)), right, delta);
            &&& kr == k
            &&& st == rstate(*final(space), i, *final(ports), *final(acts))
            &&& space_frame(*old(space), *final(space), i)
        },
{
    if right >= MACH_PORT_RIGHT_NUMBER {
        return KERN_INVALID_VALUE;
    }
    match ipc_right_lookup_write(space, name) {
        Err(kr) => kr,
        Ok(i) => ipc_right_delta(space, i, ports, acts, right, delta),
    }
}

/// `mach_port_deallocate`: release one user reference of the right named
/// `name`.
pub fn mach_port_deallocate(space: &mut ipc_space, ports: &mut Vec<ipc_port>, acts: &mut Vec<IpcAction>, name: mach_port_name_t)
    -> (kr: kern_return_t)
    requires
        space_ok(*old(space), pv(*old(ports))),
    ensures
        !old(space).is_active ==> kr == KERN_INVALID_TASK && *final(space) == *old(space) && *final(ports) == *old(ports) && *final(acts) == *old(acts),
        old(space).is_active && lookup_spec(*old(space), name) is None ==> kr == KERN_INVALID_NAME && *final(space) == *old(space) && *final(ports) == *old(ports) && *final(acts) == *old(acts),
        old(space).is_active && lookup_spec(*old(space), name) is Some ==> {
            let i = lookup_spec(*old(space), name)->0 as usize;
            let (k, st) = st_dealloc(rstate(*old(space), i, *old(ports), *old(acts)));
            &&& kr == k
            &&& st == rstate(*final(space), i, *final(ports), *final(acts))
            &&& space_frame(*old(space), *final(space), i)
        },
{
    match ipc_right_lookup_write(space, name) {
        Err(kr) => kr,
        Ok(i) => ipc_right_dealloc(space, i, ports, acts),
    }
}

/// `mach_port_destroy`: destroy the entry named `name` and its right.
pub fn mach_port_destroy(space: &mut ipc_space, ports: &mut Vec<ipc_port>, acts: &mut Vec<IpcAction>, name: mach_port_name_t)
    -> (kr: kern_return_t)
    requires
        space_ok(*old(space), pv(*old(ports))),
    ensures
        !old(space).is_active ==> kr == KERN_INVALID_TASK && *final(space) == *old(space) && *final(ports) == *old(ports) && *final(acts) == *old(acts),
        old(space).is_active && lookup_spec(*old(space), name) is None ==> kr == KERN_INVALID_NAME && *final(space) == *old(space) && *final(ports) == *old(ports) && *final(acts) == *old(acts),
        old(space).is_active && lookup_spec(*old(space), name) is Some ==> {
            let i = lookup_spec(*old(space), name)->0 as usize;
            &&& kr == KERN_SUCCESS
            &&& st_destroy(rstate(*old(space), i, *old(ports), *old(acts))) == rstate(*final(space), i, *final(ports), *final(acts))
            &&& space_frame(*old(space), *final(space), i)
        },
{
    match ipc_right_lookup_write(space, name) {
        Err(kr) => kr,
        Ok(i) => ipc_right_destroy(space, i, ports, acts),
    }
}

// ─── Listing a space ─────────────────────────────────────────────

/// Did the port of a send right die before `timestamp` was taken?
pub open spec fn died_before(e: ipc_entry, ports: Seq<PortModel>, timestamp: u32) -> bool {
    let q = ports[e.ie_object as int];
    e.ie_bits & MACH_PORT_TYPE_SEND_RIGHTS != 0 && !q.active
        && ((q.timestamp as i32).wrapping_sub(timestamp as i32) < 0)
}

/// The type `mach_port_names` reports for an entry in use: a right whose
/// port died before the listing started is reported as a dead name.
pub open spec fn names_type(e: ipc_entry, ports: Seq<PortModel>, timestamp: u32) -> u32 {
    if died_before(e, ports, timestamp) {
        let b = (e.ie_bits & !(IE_BITS_TYPE_MASK | IE_BITS_MAREQUEST)) | MACH_PORT_TYPE_DEAD_NAME;
        ie_type(b)
    } else {
        reported_type(e)
    }
}

/// The names and types of the entries in use among the first `n`.
pub open spec fn names_list(entries: Seq<ipc_entry>, ports: Seq<PortModel>, timestamp: u32, n: int) -> (Seq<u32>, Seq<u32>)
    decreases n,
{
    if n <= 0 {
        (Seq::empty(), Seq::empty())
    } else {
        let (ns, ts) = names_list(entries, ports, timestamp, n - 1);
        let e = entries[n - 1];
        if in_use(e) {
            (ns.push(e.ie_name), ts.push(names_type(e, ports, timestamp)))
        } else {
            (ns, ts)
        }
    }
}

/// `mach_port_names_helper`: the type reported for one entry in use.
fn mach_port_names_helper(timestamp: u32, e: ipc_entry, ports: &Vec<ipc_port>) -> (t: u32)
    requires
        e.ie_bits & MACH_PORT_TYPE_SEND_RIGHTS != 0 ==> e.ie_object < ports.len(),
        e.ie_request != 0 ==> ie_urefs(e.ie_bits) < MACH_PORT_UREFS_MAX,
    ensures
        t == names_type(e, pv(*ports), timestamp),
{
    let mut bits = e.ie_bits;
    let mut request = e.ie_request;
    if bits & MACH_PORT_TYPE_SEND_RIGHTS != 0 {
        let q = &ports[e.ie_object as usize];
        let died = !q.ip_active && ip_timestamp_order(q.ip_timestamp, timestamp);
        if died {
            bits = bits & !(IE_BITS_TYPE_MASK | IE_BITS_MAREQUEST);
            bits = bits | MACH_PORT_TYPE_DEAD_NAME;
            proof { lemma_dead_type(e.ie_bits); }
            if request != 0 {
                proof { lemma_entry_bits(bits); }
                bits = bits + 1;
            }
            request = 0;
        }
    }
    let mut t = ie_bits_type(bits);
    if request != 0 {
        t = t | MACH_PORT_TYPE_DNREQUEST;
    }
    if bits & IE_BITS_MAREQUEST != 0 {
        t = t | MACH_PORT_TYPE_MAREQUEST;
    }
    t
}

/// The bits of a right reported as a dead name: type dead name, no
/// msg-accepted request, one more user reference for a pending request.
pub proof fn lemma_dead_type(bits: u32)
    by (bit_vector)
    ensures
        ({
            let b = (bits & !(0x001f_0000u32 | 0x0020_0000u32)) | 0x0010_0000u32;
            &&& b & 0x0020_0000u32 == 0
            &&& b & 0xffffu32 == bits & 0xffffu32
            &&& b & 0xffffu32 < 0xffff ==> b + 1 <= 0xFFFF_FFFFu32 && (b + 1) as u32 & 0x001f_0000u32 == b & 0x001f_0000u32
                && (b + 1) as u32 & 0x0020_0000u32 == 0
            &&& (b & 0x001f_0000u32) & 0x001f_0000u32 == b & 0x001f_0000u32
        }),
{
}

/// `mach_port_names`: the names of the rights of a space and their types,
/// in the order of its entries, given the port timestamp taken when the
/// listing starts; `KERN_INVALID_TASK` for an inactive space.
pub fn mach_port_names(space: &ipc_space, ports: &Vec<ipc_port>, timestamp: u32)
    -> (r: Result<(Vec<mach_port_name_t>, Vec<mach_port_type_t>), kern_return_t>)
    requires
        space_ok(*space, pv(*ports)),
    ensures
        !space.is_active ==> r == Err::<(Vec<mach_port_name_t>, Vec<mach_port_type_t>), kern_return_t>(KERN_INVALID_TASK),
        space.is_active ==> (r matches Ok((ns, ts))
            && (ns@, ts@) == names_list(space.is_entries@, pv(*ports), timestamp, space.is_entries.len() as int)),
{
    if !space.is_active {
        return Err(KERN_INVALID_TASK);
    }
    let mut names: Vec<mach_port_name_t> = Vec::new();
    let mut types: Vec<mach_port_type_t> = Vec::new();
    let mut i: usize = 0;
    while i < space.is_entries.len()
        invariant
            i <= space.is_entries.len(),
            space_ok(*space, pv(*ports)),
            (names@, types@) == names_list(space.is_entries@, pv(*ports), timestamp, i as int),
        decreases space.is_entries.len() - i,
    {
        let e = space.is_entries[i];
        if ie_bits_type(e.ie_bits) != MACH_PORT_TYPE_NONE {
            proof {
                assert(in_use(space.is_entries[i as int]));
                lemma_type_bits(e.ie_bits);
                assert(entry_ok(e, pv(*ports)));
            }
            let t = mach_port_names_helper(timestamp, e, ports);
            names.push(e.ie_name);
            types.push(t);
        }
        i += 1;
    }
    Ok((names, types))
}

// ─── Laws ────────────────────────────────────────────────────────

/// Bits of an entry holding a send right with at least one user reference,
/// and the same bits with one reference fewer (`c`).
pub proof fn lemma_send_urefs_step(b: u32, c: u32)
    by (bit_vector)
    requires
        b & 0x0001_0000u32 != 0,
        b & 0xFFFFu32 >= 1,
        c == b - 1,
    ensures
        c & 0x0001_0000u32 != 0,
        c & 0xFFFFu32 == (b & 0xFFFFu32) - 1,
        c & 0x0010_0000u32 == b & 0x0010_0000u32,
        c & 0x0005_0000u32 != 0,
        (c | 0x0001_0000u32) + 1 == b,
{
}

/// Law: moving a send right into a message (`ipc_right_copyin` with
/// `MACH_MSG_TYPE_MOVE_SEND`) and back into the same entry
/// (`ipc_right_copyout` with `MACH_MSG_TYPE_MOVE_SEND`) restores the entry
/// and the port exactly, and queues no work — when the entry keeps other
/// user references of the right and the port is alive.
pub proof fn law_move_send_roundtrip(s: RState, space_id: u32, deadok: bool, overflow: bool)
    requires
        s.e.ie_bits & MACH_PORT_TYPE_SEND != 0,
        s.e.ie_bits & MACH_PORT_TYPE_DEAD_NAME == 0,
        2 <= ie_urefs(s.e.ie_bits) < MACH_PORT_UREFS_MAX,
        0 < s.e.ie_object < s.ports.len(),
        s.ports[s.e.ie_object as int].active,
        port_room(s.ports[s.e.ie_object as int]),
    ensures ({
        let (kr, obj, dn, s1) = st_copyin(s, MACH_MSG_TYPE_MOVE_SEND, deadok);
        &&& kr == KERN_SUCCESS
        &&& obj == s.e.ie_object
        &&& dn == 0
        &&& st_copyout(s1, space_id, MACH_MSG_TYPE_MOVE_SEND, overflow) == (KERN_SUCCESS, s)
    }),
{
    let bits = s.e.ie_bits;
    let p = s.e.ie_object;
    lemma_entry_bits(bits);
    lemma_send_urefs_step(bits, (bits - 1) as u32);
    lemma_type_bits(bits);
    let (kr, obj, dn, s1) = st_copyin(s, MACH_MSG_TYPE_MOVE_SEND, deadok);
    assert(st_check(s) == (false, s));
    let q = s.ports[p as int];
    assert(s1.ports[p as int].srights == q.srights + 1);
    let (k2, s2) = st_copyout(s1, space_id, MACH_MSG_TYPE_MOVE_SEND, overflow);
    assert(s2.ports[p as int] == q);
    assert(s2.ports =~= s.ports);
    assert(s2.e == s.e);
    assert(s2 =~= s);
}

/// Law: copying a send right out (`ipc_right_copyout` with
/// `MACH_MSG_TYPE_MOVE_SEND`, overflow allowed) into an entry that holds
/// send rights with `u` user references, `1 <= u < MACH_PORT_UREFS_MAX`,
/// succeeds and leaves `min(u + 1, MACH_PORT_UREFS_MAX - 1)` references:
/// the user references of a send right never reach the maximum.
pub proof fn law_send_urefs_below_max(s: RState, space_id: u32)
    requires
        s.e.ie_bits & MACH_PORT_TYPE_SEND != 0,
        1 <= ie_urefs(s.e.ie_bits) < MACH_PORT_UREFS_MAX,
    ensures ({
        let u = ie_urefs(s.e.ie_bits);
        let (kr, r) = st_copyout(s, space_id, MACH_MSG_TYPE_MOVE_SEND, true);
        &&& kr == KERN_SUCCESS
        &&& ie_urefs(r.e.ie_bits) == if u + 1 < MACH_PORT_UREFS_MAX { u + 1 } else { MACH_PORT_UREFS_MAX - 1 }
        &&& ie_urefs(r.e.ie_bits) < MACH_PORT_UREFS_MAX
    }),
{
    let bits = s.e.ie_bits;
    lemma_send_bit_or(bits);
    lemma_urefs_shift(bits | MACH_PORT_TYPE_SEND, 1);
}

/// Law: releasing the last user reference of a send right
/// (`mach_port_deallocate`) leaves the entry holding no send right.  A send
/// right alone goes with its entry (or, when its port has died, turns into
/// a dead name); a send right held beside the receive right leaves the
/// receive right alone in the entry, with no user references, and the port
/// counts one send right fewer.
pub proof fn law_dealloc_last_send(s: RState)
    requires
        ie_type(s.e.ie_bits) == MACH_PORT_TYPE_SEND || ie_type(s.e.ie_bits) == MACH_PORT_TYPE_SEND_RECEIVE,
        ie_urefs(s.e.ie_bits) == 1,
        entry_ok(s.e, s.ports),
    ensures ({
        let (kr, r) = st_dealloc(s);
        let p = s.e.ie_object;
        &&& kr == KERN_SUCCESS
        &&& r.e.ie_bits & MACH_PORT_TYPE_SEND == 0
        &&& ie_type(s.e.ie_bits) == MACH_PORT_TYPE_SEND_RECEIVE ==> {
            &&& ie_type(r.e.ie_bits) == MACH_PORT_TYPE_RECEIVE
            &&& ie_urefs(r.e.ie_bits) == 0
            &&& r.ports[p as int].srights == s.ports[p as int].srights - 1
        }
    }),
{
    let bits = s.e.ie_bits;
    lemma_type_bits(bits);
    lemma_entry_bits(bits);
    if ie_type(bits) == MACH_PORT_TYPE_SEND {
        let (dead, s1) = st_check(s);
        if dead {
            lemma_dead_bits(bits, s.e.ie_request);
            let b = s1.e.ie_bits;
            lemma_type_bits(b);
            lemma_urefs_shift(b, 1);
            lemma_type_bits((b - 1) as u32);
        }
    }
}

/// Law: giving up a receive right (`mach_port_mod_refs` on
/// `MACH_PORT_RIGHT_RECEIVE` with -1) succeeds and destroys the port: the
/// work handed on keeps what was there and gains the destruction of the
/// port, and the entry holds no receive right afterwards.
pub proof fn law_drop_receive_destroys_port(s: RState)
    requires
        s.e.ie_bits & MACH_PORT_TYPE_RECEIVE != 0,
    ensures ({
        let (kr, r) = st_delta(s, MACH_PORT_RIGHT_RECEIVE, -1i32);
        &&& kr == KERN_SUCCESS
        &&& r.acts.len() > s.acts.len()
        &&& r.acts.subrange(0, s.acts.len() as int) == s.acts
        &&& exists|k: int| s.acts.len() <= k < r.acts.len() && r.acts[k] == (IpcAction::DestroyPort { port: s.e.ie_object })
    }),
{
    let bits = s.e.ie_bits;
    let p = s.e.ie_object;
    let name = s.e.ie_name;
    let s1 = if bits & IE_BITS_MAREQUEST != 0 { st_act(s, IpcAction::CancelMarequest { name }) } else { s };
    let b1 = if bits & IE_BITS_MAREQUEST != 0 { bits & !IE_BITS_MAREQUEST } else { bits };
    let (dn, s2) = if b1 & MACH_PORT_TYPE_SEND != 0 {
        let b2 = (b1 & !IE_BITS_TYPE_MASK) | MACH_PORT_TYPE_DEAD_NAME;
        let b3 = if s.e.ie_request != 0 { (b2 + 1) as u32 } else { b2 };
        (0u32, st_entry(s1, ipc_entry { ie_name: name, ie_bits: b3, ie_object: 0, ie_request: 0 }))
    } else {
        let (dn, t1) = st_dncancel(s1);
        (dn, st_entry(t1, freed(t1.e)))
    };
    let s3 = st_act(s2, IpcAction::DestroyPort { port: p });
    let k = s3.acts.len() - 1;
    let (kr, r) = st_delta(s, MACH_PORT_RIGHT_RECEIVE, -1i32);
    assert(r == st_notify(s3, 0, 0, dn, name));
    assert(s2.acts.len() >= s.acts.len());
    assert(s2.acts.subrange(0, s.acts.len() as int) =~= s.acts);
    assert(r.acts[k] == (IpcAction::DestroyPort { port: p }));
    assert(r.acts.subrange(0, s.acts.len() as int) =~= s.acts);
}

/// The right type bit of a send right, as `mach_port_get_refs` tests it.
pub proof fn lemma_send_type_bit(bits: u32, t: u32)
    by (bit_vector)
    requires
        bits & 0x0001_0000u32 != 0,
        t & 0x001f_0000u32 == bits & 0x001f_0000u32,
    ensures
        t & (1u32 << 16u32) != 0,
{
}

/// Law: after `mach_port_mod_refs(name, MACH_PORT_RIGHT_SEND, delta)`
/// succeeds on a live send right, `mach_port_get_refs(name,
/// MACH_PORT_RIGHT_SEND)` reports the old user references plus `delta`.
pub proof fn law_mod_refs_then_get_refs(s: RState, delta: i32)
    requires
        s.e.ie_bits & MACH_PORT_TYPE_SEND != 0,
        0 < s.e.ie_object < s.ports.len(),
        s.ports[s.e.ie_object as int].active,
        0 < ie_urefs(s.e.ie_bits) + delta,
        ie_urefs(s.e.ie_bits) + 1 + delta <= MACH_PORT_UREFS_MAX,
    ensures ({
        let (kr, s1) = st_delta(s, MACH_PORT_RIGHT_SEND, delta);
        let (t, u, s2) = st_info(s1);
        &&& kr == KERN_SUCCESS
        &&& refs_of(t, u, MACH_PORT_RIGHT_SEND) == ie_urefs(s.e.ie_bits) + delta
        &&& s2 == s1
    }),
{
    let bits = s.e.ie_bits;
    lemma_entry_bits(bits);
    lemma_type_bits(bits);
    assert(st_check(s) == (false, s));
    let nb = (bits + delta) as u32;
    lemma_delta_bits(bits, delta);
    let (kr, s1) = st_delta(s, MACH_PORT_RIGHT_SEND, delta);
    assert(s1.e.ie_bits == nb);
    lemma_type_bits(nb);
    assert(st_check(s1) == (false, s1));
    let (t, u, s2) = st_info(s1);
    lemma_reported_type(s1.e);
    lemma_send_type_bit(nb, t);
}

/// Adding `delta` user references keeps the right type bits.
pub proof fn lemma_delta_bits(bits: u32, delta: i32)
    requires
        0 <= ie_urefs(bits) + delta <= MACH_PORT_UREFS_MAX,
    ensures
        0 <= bits + delta <= u32::MAX,
        ie_urefs((bits + delta) as u32) == ie_urefs(bits) + delta,
        ie_type((bits + delta) as u32) == ie_type(bits),
        ((bits + delta) as u32) & MACH_PORT_TYPE_SEND == bits & MACH_PORT_TYPE_SEND,
        ((bits + delta) as u32) & MACH_PORT_TYPE_SEND_RIGHTS == bits & MACH_PORT_TYPE_SEND_RIGHTS,
{
    lemma_entry_bits(bits);
    if delta >= 0 {
        lemma_urefs_shift(bits, delta as u32);
    } else {
        lemma_urefs_shift(bits, (0 - delta) as u32);
    }
    lemma_same_type(bits, (bits + delta) as u32);
}

pub proof fn lemma_same_type(x: u32, y: u32)
    by (bit_vector)
    requires
        x & 0x001f_0000u32 == y & 0x001f_0000u32,
    ensures
        x & 0x0001_0000u32 == y & 0x0001_0000u32,
        x & 0x0005_0000u32 == y & 0x0005_0000u32,
{
}

/// The reported type keeps the right type bits of the entry.
pub proof fn lemma_reported_type(e: ipc_entry)
    ensures
        reported_type(e) & 0x001f_0000u32 == e.ie_bits & 0x001f_0000u32,
{
    let t0 = ie_type(e.ie_bits);
    lemma_type_flags(e.ie_bits);
}

pub proof fn lemma_type_flags(bits: u32)
    by (bit_vector)
    ensures
        (bits & 0x001f_0000u32) & 0x001f_0000u32 == bits & 0x001f_0000u32,
        ((bits & 0x001f_0000u32) | 0x8000_0000u32) & 0x001f_0000u32 == bits & 0x001f_0000u32,
        ((bits & 0x001f_0000u32) | 0x4000_0000u32) & 0x001f_0000u32 == bits & 0x001f_0000u32,
        (((bits & 0x001f_0000u32) | 0x8000_0000u32) | 0x4000_0000u32) & 0x001f_0000u32 == bits & 0x001f_0000u32,
{
}

// ─── Dead-name requests ──────────────────────────────────────────

/// The entry registered, under its name, for a dead-name notification to
/// `notify` in the first free slot of port `p`'s table.
pub open spec fn st_dn_register(s: RState, p: u32, notify: u32) -> RState {
    RState {
        e: ipc_entry { ie_request: s.ports[p as int].dnrequests[0].notify, ..s.e },
        ports: s.ports.update(p as int, dn_registered(s.ports[p as int], s.e.ie_name, notify)),
        ..s
    }
}

/// `ipc_right_dnrequest` on an entry: the result, the port registered
/// before (0 for none) and the state after.  A live port right swaps its
/// registration for `notify` (or only cancels it for no `notify`), growing
/// the port's table once when it is full; a dead name asked for an
/// immediate notification gets one at the cost of a user reference.
pub open spec fn st_dnrequest(s: RState, sizes: Seq<u32>, immediate: bool, notify: u32) -> (i32, u32, RState) {
    let bits = s.e.ie_bits;
    let port_right = bits & MACH_PORT_TYPE_PORT_RIGHTS != 0;
    let (dead, s1) = if port_right { st_check(s) } else { (false, s) };
    if port_right && !dead {
        let (prev, s2) = st_dncancel(s1);
        let p = s.e.ie_object;
        let t = s2.ports[p as int].dnrequests;
        if notify == 0 {
            (KERN_SUCCESS, prev, s2)
        } else if dn_has_room(t) {
            (KERN_SUCCESS, prev, st_dn_register(s2, p, notify))
        } else if sizes[grow_index(t)] == 0 {
            (KERN_RESOURCE_SHORTAGE, 0, s2)
        } else {
            let s3 = st_port(
                s2,
                p,
                PortModel { dnrequests: grown_table(t, grow_index(t), sizes[grow_index(t)] as nat), ..s2.ports[p as int] },
            );
            (KERN_SUCCESS, prev, st_dn_register(s3, p, notify))
        }
    } else {
        let b = s1.e.ie_bits;
        if b & MACH_PORT_TYPE_DEAD_NAME != 0 && immediate && notify != 0 {
            if urefs_overflow(ie_urefs(b), 1) {
                (KERN_UREFS_OVERFLOW, 0, s1)
            } else {
                (
                    KERN_SUCCESS,
                    0,
                    st_act(
                        st_entry(s1, ipc_entry { ie_bits: (b + 1) as u32, ..s1.e }),
                        IpcAction::NotifyDeadName { notify, name: s1.e.ie_name },
                    ),
                )
            }
        } else if b & MACH_PORT_TYPE_PORT_OR_DEAD != 0 {
            (KERN_INVALID_ARGUMENT, 0, s1)
        } else {
            (KERN_INVALID_RIGHT, 0, s1)
        }
    }
}

/// Every port's dead-name table is well formed against `sizes`.
pub open spec fn ports_dn_ok(ports: Seq<PortModel>, sizes: Seq<u32>) -> bool {
    forall|q: int| 0 <= q < ports.len() ==> #[trigger] dn_table_ok(ports[q].dnrequests, sizes)
}

/// What growing a well-formed table needs of a well-formed size table.
pub proof fn lemma_grow_ok(t: Seq<DnRequest>, sizes: Seq<u32>)
    requires
        dn_table_ok(t, sizes),
        sizes_ok(sizes),
    ensures
        grow_index(t) < sizes.len(),
        sizes[grow_index(t)] != 0 ==> sizes[grow_index(t)] > table_size(t),
{
    if t.len() > 0 {
        assert(size_step_ok(sizes, t[0].name as int));
    }
}

fn dnrequest_entry(
    space: &mut ipc_space,
    idx: usize,
    ports: &mut Vec<ipc_port>,
    acts: &mut Vec<IpcAction>,
    sizes: &Vec<u32>,
    immediate: boolean_t,
    notify: u32,
) -> (r: (kern_return_t, u32))
    requires
        idx < old(space).is_entries.len(),
        in_use(old(space).is_entries[idx as int]),
        old(space).is_entries[idx as int].ie_name != MACH_PORT_NAME_NULL,
        entry_ok(old(space).is_entries[idx as int], pv(*old(ports))),
        ports_dn_ok(pv(*old(ports)), sizes@),
        sizes_ok(sizes@),
    ensures
        (r.0, r.1, rstate(*final(space), idx, *final(ports), *final(acts)))
            == st_dnrequest(rstate(*old(space), idx, *old(ports), *old(acts)), sizes@, immediate != 0, notify),
        space_frame(*old(space), *final(space), idx),
        final(ports).len() == old(ports).len(),
{
    let ghost s0 = rstate(*old(space), idx, *old(ports), *old(acts));
    let e = get_entry(space, idx);
    let mut bits = e.ie_bits;
    if bits & MACH_PORT_TYPE_PORT_RIGHTS != 0 {
        let p = e.ie_object;
        let dead = ipc_right_check(space, idx, ports, acts);
        if !dead {
            let previous = ipc_right_dncancel(space, idx, ports, acts);
            let ghost s2 = rstate(*space, idx, *ports, *acts);
            proof {
                lemma_frame(*old(space), *space, idx);
                assert(dn_table_ok(pv(*old(ports))[p as int].dnrequests, sizes@));
            }
            if notify == 0 {
                return (KERN_SUCCESS, previous);
            }
            let (kr2, request) = ipc_port_dnrequest(ports, p, e.ie_name, notify);
            if kr2 != KERN_SUCCESS {
                proof { lemma_grow_ok(pv(*old(ports))[p as int].dnrequests, sizes@); }
                let kr3 = ipc_port_dngrow(ports, p, sizes);
                if kr3 != KERN_SUCCESS {
                    return (kr3, 0);
                }
                let (_kr4, request2) = ipc_port_dnrequest(ports, p, e.ie_name, notify);
                let e2 = get_entry(space, idx);
                set_entry(space, idx, ipc_entry { ie_request: request2, ..e2 });
                proof { lemma_frame(*old(space), *space, idx); }
                assert(rstate(*space, idx, *ports, *acts) =~= st_dnrequest(s0, sizes@, immediate != 0, notify).2);
                return (KERN_SUCCESS, previous);
            }
            let e2 = get_entry(space, idx);
            set_entry(space, idx, ipc_entry { ie_request: request, ..e2 });
            proof { lemma_frame(*old(space), *space, idx); }
            assert(rstate(*space, idx, *ports, *acts) =~= st_dnrequest(s0, sizes@, immediate != 0, notify).2);
            return (KERN_SUCCESS, previous);
        }
        bits = get_entry(space, idx).ie_bits;
    }
    proof { lemma_frame(*old(space), *space, idx); }
    if bits & MACH_PORT_TYPE_DEAD_NAME != 0 && immediate != 0 && notify != 0 {
        let urefs = ie_bits_urefs(bits);
        if mach_port_urefs_overflow(urefs, 1) {
            return (KERN_UREFS_OVERFLOW, 0);
        }
        proof { lemma_entry_bits(bits); }
        let e2 = get_entry(space, idx);
        set_entry(space, idx, ipc_entry { ie_bits: bits + 1, ..e2 });
        acts.push(IpcAction::NotifyDeadName { notify, name: e2.ie_name });
        proof { lemma_frame(*old(space), *space, idx); }
        assert(rstate(*space, idx, *ports, *acts) =~= st_dnrequest(s0, sizes@, immediate != 0, notify).2);
        return (KERN_SUCCESS, 0);
    }
    if bits & MACH_PORT_TYPE_PORT_OR_DEAD != 0 {
        (KERN_INVALID_ARGUMENT, 0)
    } else {
        (KERN_INVALID_RIGHT, 0)
    }
}

/// `ipc_right_dnrequest`: register `notify` for a dead-name notification
/// of the right named `name` (cancel the registration for no `notify`),
/// returning the port registered before.
pub fn ipc_right_dnrequest(
    space: &mut ipc_space,
    ports: &mut Vec<ipc_port>,
    acts: &mut Vec<IpcAction>,
    sizes: &Vec<u32>,
    name: mach_port_name_t,
    immediate: boolean_t,
    notify: u32,
) -> (r: (kern_return_t, u32))
    requires
        space_ok(*old(space), pv(*old(ports))),
        ports_dn_ok(pv(*old(ports)), sizes@),
        sizes_ok(sizes@),
    ensures
        !old(space).is_active ==> r.0 == KERN_INVALID_TASK && *final(space) == *old(space) && *final(ports) == *old(ports) && *final(acts) == *old(acts),
        old(space).is_active && lookup_spec(*old(space), name) is None ==> r.0 == KERN_INVALID_NAME && *final(space) == *old(space) && *final(ports) == *old(ports) && *final(acts) == *old(acts),
        old(space).is_active && lookup_spec(*old(space), name) is Some ==> {
            let i = lookup_spec(*old(space), name)->0 as usize;
            let (k, prev, st) = st_dnrequest(rstate(*old(space), i, *old(ports), *old(acts)), sizes@, immediate != 0, notify);
            &&& r == (k, prev)
            &&& st == rstate(*final(space), i, *final(ports), *final(acts))
            &&& space_frame(*old(space), *final(space), i)
        },
{
    match ipc_right_lookup_write(space, name) {
        Err(kr) => (kr, 0),
        Ok(i) => dnrequest_entry(space, i, ports, acts, sizes, immediate, notify),
    }
}

} // verus!
