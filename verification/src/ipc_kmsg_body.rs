//! The body of a message in the kernel: a sequence of typed items, each a
//! type descriptor (one word, or three in the long form) followed by its
//! data, inline (padded to a word) or out of line (one word).  Port rights
//! travel as names in the sender's space, are turned into ports when the
//! message is copied in, and into names of the receiver's space when it
//! is copied out.
//!
//! The body is held as its words.  An out-of-line port array copied into
//! the kernel is held by the message itself (`ikm_ool_ports`), its item's
//! word being its index there; out-of-line data is held by the
//! virtual-memory system, its item's word being the copy object.  Work on
//! the sender's or receiver's memory is the caller's: the copy-in and
//! copy-out stop at each out-of-line item and resume with the outcome.

use vstd::prelude::*;
use crate::ipc_kmsg::{
    cin, cin_ok, copyin_header_ok, copyin_header_spec, copyin_type_spec, dealloc_if_none, ipc_kmsg_copyin_header,
    ipc_object_copyin_type, sact, srel, sst, SState,
};
use crate::ipc_kmsg_copyout::{copyout_header_ok, copyout_header_spec, ipc_kmsg_copyout_header};
use crate::ipc_object::{
    copyout_dest_spec, dest_ok, ipc_object_copyout_dest, destroy_ok, destroy_spec, ipc_kmsg_copyout_object, ipc_object_copyin, ipc_object_destroy, kmsg_copyout_object_ok,
    kmsg_copyout_object_spec,
};
use crate::ipc_port::{chain_base, chain_in_range, circular, ipc_port_check_circularity, linked};
use crate::ipc_right::{
    get_port, in_use, ipc_entry, ipc_port, ipc_space, lookup_in, names_unique, pv, set_port, IpcAction, PortModel,
    PortScalars, IO_DEAD, IO_NULL,
};
use crate::mach_types::{
    is_port_right, kern_return_t, mach_msg_header_t, mach_port_name_t, MACH_RCV_BODY_ERROR, mach_msg_return_t, IKOT_DEVICE, IKOT_PAGING_REQUEST, IKOT_USER_DEVICE, KERN_INVALID_NAME,
    KERN_INVALID_TASK, KERN_SUCCESS, MACH_MSGH_BITS_CIRCULAR, MACH_MSGH_BITS_COMPLEX, MACH_MSGH_BITS_LOCAL,
    MACH_MSG_SUCCESS, MACH_MSG_TYPE_PORT_ANY, MACH_MSG_TYPE_PORT_RECEIVE, MACH_MSG_TYPE_PROTECTED_PAYLOAD, MACH_PORT_NAME_DEAD, MACH_PORT_NAME_NULL,
    MACH_SEND_INVALID_MEMORY, MACH_SEND_INVALID_RIGHT, MACH_SEND_INVALID_TYPE, MACH_SEND_MSG_TOO_SMALL,
    MACH_MSG_TYPE_MOVE_RECEIVE, MACH_MSG_TYPE_MAKE_SEND_ONCE, KERN_RESOURCE_SHORTAGE, MACH_MSG_TYPE_COPY_SEND,
    MACH_MSG_TYPE_MAKE_SEND, MACH_MSG_TYPE_PORT_SEND, mach_msg_type_name_t, MACH_MSG_VM_KERNEL, MACH_MSG_VM_SPACE,
};

verus! {

/// A message in the kernel.
pub struct ipc_kmsg {
    pub ikm_header: mach_msg_header_t,
    pub ikm_body: Vec<u32>,
    pub ikm_ool_ports: Vec<Vec<u32>>,
    /// The msg-accepted request made for the message, by its id in the
    /// request table.
    pub ikm_marequest: Option<u32>,
}

/// The out-of-line port arrays of a message.
pub open spec fn oolv(v: Vec<Vec<u32>>) -> Seq<Seq<u32>> {
    Seq::new(v.len() as nat, |i: int| v[i]@)
}

// ─── Type descriptors ────────────────────────────────────────────

/// A type descriptor as read: the data's type name, element size in bits
/// and element count; whether the data is inline, the descriptor is in
/// the long form, the data is deallocated from the sender, and the unused
/// bit is set; whether the short fields of a long form's first word are
/// zero; and the words the descriptor takes.
#[derive(Clone, Copy, Debug, PartialEq, Eq, Structural)]
pub struct Desc {
    pub name: u32,
    pub size: u32,
    pub number: u32,
    pub inline: bool,
    pub longform: bool,
    pub dealloc: bool,
    pub unused: bool,
    pub short_zero: bool,
    pub hwords: u32,
}

/// The descriptor at word `pos` of `w`: `mach_msg_type_t` (name in bits
/// 0..8, size 8..16, number 16..28, then the inline, long-form,
/// deallocate and unused bits), or in the long form
/// `mach_msg_type_long_t` (that word, then name and size as the low and
/// high halves of the next word, and the number in the third).
pub open spec fn desc_at(w: Seq<u32>, pos: int) -> Desc {
    let h = w[pos];
    let longform = (h >> 29) & 1 == 1;
    Desc {
        name: if longform { w[pos + 1] & 0xffff } else { h & 0xff },
        size: if longform { w[pos + 1] >> 16 } else { (h >> 8) & 0xff },
        number: if longform { w[pos + 2] } else { (h >> 16) & 0x0fff },
        inline: (h >> 28) & 1 == 1,
        longform,
        dealloc: (h >> 30) & 1 == 1,
        unused: (h >> 31) & 1 == 1,
        short_zero: h & 0xff == 0 && (h >> 8) & 0xff == 0 && (h >> 16) & 0x0fff == 0,
        hwords: if longform { 3 } else { 1 },
    }
}

/// The descriptor at `pos` can be read.
pub open spec fn desc_fits(w: Seq<u32>, pos: int) -> bool {
    &&& 0 <= pos < w.len()
    &&& (w[pos] >> 29) & 1 == 1 ==> pos + 3 <= w.len()
}

/// The bytes of an item's data: `(number * size + 7) >> 3`, kept to 32
/// bits.
pub open spec fn data_len(d: Desc) -> u32 {
    ((d.number * d.size + 7) / 8) as u32
}

/// The bytes of an item's data, exactly: `(number * size + 7) >> 3`.
pub open spec fn data_bytes(d: Desc) -> int {
    (d.number * d.size + 7) / 8
}

/// The words an item's data takes: the inline bytes rounded up to words,
/// or the one word of an out-of-line item.
pub open spec fn data_words(d: Desc) -> int {
    if d.inline { (data_len(d) + 3) / 4 } else { 1 }
}

/// The position of the item after the one at `pos`.
pub open spec fn next_item(w: Seq<u32>, pos: int) -> int {
    let d = desc_at(w, pos);
    pos + d.hwords + data_words(d)
}

/// Every item moves past its descriptor.
pub proof fn lemma_next_item(w: Seq<u32>, pos: int)
    ensures
        next_item(w, pos) >= pos + desc_at(w, pos).hwords,
        desc_at(w, pos).hwords >= 1,
{
}

/// Facts about the fields of a descriptor word.
proof fn lemma_desc_word(h: u32, w1: u32)
    by (bit_vector)
    ensures
        h & 0xff < 256,
        (h >> 8) & 0xff < 256,
        (h >> 16) & 0x0fff < 4096,
        w1 & 0xffff < 0x1_0000,
        w1 >> 16 < 0x1_0000,
{
}

/// Read the descriptor at word `pos`.
pub fn read_desc(w: &Vec<u32>, pos: usize) -> (d: Desc)
    requires
        desc_fits(w@, pos as int),
    ensures
        d == desc_at(w@, pos as int),
        d.name < 0x1_0000,
        d.size < 0x1_0000,
{
    let h = w[pos];
    let longform = (h >> 29) & 1 == 1;
    assert(longform ==> pos + 3 <= w.len());
    proof { lemma_desc_word(h, if longform { w@[pos as int + 1] } else { 0 }); }
    if longform {
        let w1 = w[pos + 1];
        Desc {
            name: w1 & 0xffff,
            size: w1 >> 16,
            number: w[pos + 2],
            inline: (h >> 28) & 1 == 1,
            longform,
            dealloc: (h >> 30) & 1 == 1,
            unused: (h >> 31) & 1 == 1,
            short_zero: h & 0xff == 0 && (h >> 8) & 0xff == 0 && (h >> 16) & 0x0fff == 0,
            hwords: 3,
        }
    } else {
        Desc {
            name: h & 0xff,
            size: (h >> 8) & 0xff,
            number: (h >> 16) & 0x0fff,
            inline: (h >> 28) & 1 == 1,
            longform,
            dealloc: (h >> 30) & 1 == 1,
            unused: (h >> 31) & 1 == 1,
            short_zero: h & 0xff == 0 && (h >> 8) & 0xff == 0 && (h >> 16) & 0x0fff == 0,
            hwords: 1,
        }
    }
}

/// The bytes of an item's data.
pub fn item_length(d: Desc) -> (r: u32)
    requires
        d.size < 0x1_0000,
    ensures
        r == data_len(d),
{
    let n = d.number as u64;
    let z = d.size as u64;
    assert(n * z < 0x1_0000_0000_0000) by (nonlinear_arith)
        requires
            n < 0x1_0000_0000,
            z < 0x1_0000,
    ;
    let x: u64 = n * z + 7;
    assert(x >> 3 == x / 8) by (bit_vector);
    assert(x as int == d.number * d.size + 7);
    (x >> 3) as u32
}

// ─── Cleaning ────────────────────────────────────────────────────

/// A port object, neither null nor dead.
pub open spec fn io_valid(o: u32) -> bool {
    o != IO_NULL && o != IO_DEAD
}

/// Each valid object of `objs` destroyed with the right `msgt`, in order.
pub open spec fn destroy_each(s: SState, objs: Seq<u32>, msgt: u32) -> SState
    decreases objs.len(),
{
    if objs.len() == 0 {
        s
    } else {
        let s1 = if io_valid(objs[0]) { destroy_spec(s, objs[0], msgt) } else { s };
        destroy_each(s1, objs.drop_first(), msgt)
    }
}

/// Each of those destructions can be done in turn.
pub open spec fn destroy_each_ok(s: SState, objs: Seq<u32>, msgt: u32) -> bool
    decreases objs.len(),
{
    objs.len() == 0 || {
        &&& io_valid(objs[0]) ==> destroy_ok(s.ports, objs[0], msgt)
        &&& destroy_each_ok(if io_valid(objs[0]) { destroy_spec(s, objs[0], msgt) } else { s }, objs.drop_first(), msgt)
    }
}

/// The rights an item of ports carries: the objects inline (no further
/// than `end`), or the array held out of line.
pub open spec fn item_objects(w: Seq<u32>, ool: Seq<Seq<u32>>, d: Desc, dp: int, end: int) -> Seq<u32> {
    if d.inline {
        let n = if d.number <= end - dp { d.number as int } else { end - dp };
        w.subrange(dp, dp + n)
    } else {
        ool[w[dp] as int].take(d.number as int)
    }
}

/// `ipc_kmsg_clean_body` on one item whose data starts at `dp`: its
/// rights destroyed and its out-of-line data discarded.
pub open spec fn clean_item(s: SState, w: Seq<u32>, ool: Seq<Seq<u32>>, d: Desc, dp: int, end: int) -> SState {
    let s1 = if is_port_right(d.name) { destroy_each(s, item_objects(w, ool, d, dp, end), d.name) } else { s };
    if !d.inline && data_len(d) != 0 && !is_port_right(d.name) {
        sact(s1, IpcAction::DiscardCopy { copy: w[dp] })
    } else {
        s1
    }
}

/// What cleaning one item relies on: its data in bounds, an empty
/// out-of-line region recorded as 0, its port array held by the message,
/// and its rights destroyable.
pub open spec fn clean_item_ok(s: SState, w: Seq<u32>, ool: Seq<Seq<u32>>, d: Desc, dp: int, end: int) -> bool {
    &&& dp <= end
    &&& !d.inline ==> dp < end
    &&& !d.inline && data_len(d) == 0 ==> w[dp] == 0
    &&& is_port_right(d.name) && !d.inline ==> w[dp] < ool.len() && d.number <= ool[w[dp] as int].len()
    &&& is_port_right(d.name) ==> destroy_each_ok(s, item_objects(w, ool, d, dp, end), d.name)
}

/// `ipc_kmsg_clean_body` from the item at `pos` up to `end`.
pub open spec fn clean_items(s: SState, w: Seq<u32>, ool: Seq<Seq<u32>>, pos: int, end: int) -> SState
    decreases if pos < end { end - pos } else { 0 },
{
    if pos >= end || !desc_fits(w, pos) {
        s
    } else {
        let d = desc_at(w, pos);
        proof { lemma_next_item(w, pos); }
        clean_items(clean_item(s, w, ool, d, pos + d.hwords, end), w, ool, next_item(w, pos), end)
    }
}

/// What cleaning from `pos` to `end` relies on.
pub open spec fn clean_items_ok(s: SState, w: Seq<u32>, ool: Seq<Seq<u32>>, pos: int, end: int) -> bool
    decreases if pos < end { end - pos } else { 0 },
{
    pos >= end || {
        let d = desc_at(w, pos);
        proof { lemma_next_item(w, pos); }
        &&& desc_fits(w, pos)
        &&& end <= w.len()
        &&& clean_item_ok(s, w, ool, d, pos + d.hwords, end)
        &&& clean_items_ok(clean_item(s, w, ool, d, pos + d.hwords, end), w, ool, next_item(w, pos), end)
    }
}

/// Destroy each valid object of `objs[from..from + n]`.
fn destroy_objects(
    space: &ipc_space,
    ports: &mut Vec<ipc_port>,
    acts: &mut Vec<IpcAction>,
    objs: &Vec<u32>,
    from: usize,
    n: usize,
    msgt: u32,
)
    requires
        from + n <= objs.len(),
        destroy_each_ok(sst(*space, *old(ports), *old(acts)), objs@.subrange(from as int, from + n), msgt),
    ensures
        sst(*space, *final(ports), *final(acts)) == destroy_each(sst(*space, *old(ports), *old(acts)),
            objs@.subrange(from as int, from + n), msgt),
{
    let ghost all = objs@.subrange(from as int, from + n);
    assert(all.skip(0) =~= all);
    let mut i: usize = 0;
    while i < n
        invariant
            i <= n,
            from + n <= objs.len(),
            all == objs@.subrange(from as int, from + n),
            destroy_each_ok(sst(*space, *ports, *acts), all.skip(i as int), msgt),
            destroy_each(sst(*space, *ports, *acts), all.skip(i as int), msgt)
                == destroy_each(sst(*space, *old(ports), *old(acts)), all, msgt),
        decreases n - i,
    {
        let ghost rest = all.skip(i as int);
        let o = objs[from + i];
        assert(rest[0] == o);
        assert(rest.drop_first() =~= all.skip(i + 1));
        if o != IO_NULL && o != IO_DEAD {
            ipc_object_destroy(space, ports, acts, o, msgt);
        }
        i = i + 1;
    }
    assert(all.skip(n as int) =~= Seq::<u32>::empty());
}

/// `ipc_kmsg_clean_body`: destroy the rights and discard the out-of-line
/// data that the items from word `start` up to word `end` of the body
/// carry.
pub fn ipc_kmsg_clean_body(
    space: &ipc_space,
    ports: &mut Vec<ipc_port>,
    acts: &mut Vec<IpcAction>,
    w: &Vec<u32>,
    ool: &Vec<Vec<u32>>,
    start: usize,
    end: usize,
)
    requires
        w.len() < 0x4000_0000,
        clean_items_ok(sst(*space, *old(ports), *old(acts)), w@, oolv(*ool), start as int, end as int),
    ensures
        sst(*space, *final(ports), *final(acts)) == clean_items(sst(*space, *old(ports), *old(acts)), w@, oolv(*ool),
            start as int, end as int),
{
    let ghost s0 = sst(*space, *ports, *acts);
    let mut pos = start;
    while pos < end
        invariant
            w.len() < 0x4000_0000,
            clean_items_ok(sst(*space, *ports, *acts), w@, oolv(*ool), pos as int, end as int),
            clean_items(sst(*space, *ports, *acts), w@, oolv(*ool), pos as int, end as int)
                == clean_items(s0, w@, oolv(*ool), start as int, end as int),
        decreases if pos < end { end - pos } else { 0 },
    {
        let d = read_desc(w, pos);
        let dp = pos + d.hwords as usize;
        let length = item_length(d);
        let port = carries_rights(d.name);
        let ghost si = sst(*space, *ports, *acts);
        proof { lemma_next_item(w@, pos as int); }
        if port {
            if d.inline {
                let n = if (d.number as usize) <= end - dp { d.number as usize } else { end - dp };
                destroy_objects(space, ports, acts, w, dp, n, d.name);
            } else {
                let idx = w[dp] as usize;
                assert(ool[idx as int]@ == oolv(*ool)[idx as int]);
                assert(ool[idx as int]@.subrange(0, d.number as int) =~= oolv(*ool)[idx as int].take(d.number as int));
                destroy_objects(space, ports, acts, &ool[idx], 0, d.number as usize, d.name);
            }
        }
        if !d.inline && length != 0 && !port {
            acts.push(IpcAction::DiscardCopy { copy: w[dp] });
        }
        proof {
            assert(sst(*space, *ports, *acts) =~= clean_item(si, w@, oolv(*ool), d, dp as int, end as int));
        }
        if d.inline {
            pos = dp + ((length as u64 + 3) / 4) as usize;
        } else {
            pos = dp + 1;
        }
    }
}

/// The rights the header carries destroyed: the destination's, and the
/// reply's when there is one.
pub open spec fn header_destroyed(s: SState, hdr: mach_msg_header_t) -> SState {
    let s1 = if io_valid(hdr.msgh_remote_port) { destroy_spec(s, hdr.msgh_remote_port, hdr.msgh_bits & 0xff) } else { s };
    if io_valid(hdr.msgh_local_port) {
        destroy_spec(s1, hdr.msgh_local_port, (hdr.msgh_bits & 0xff00) >> 8u32)
    } else {
        s1
    }
}

/// What destroying the header's rights relies on.
pub open spec fn header_destroy_ok(s: SState, hdr: mach_msg_header_t) -> bool {
    let s1 = if io_valid(hdr.msgh_remote_port) { destroy_spec(s, hdr.msgh_remote_port, hdr.msgh_bits & 0xff) } else { s };
    &&& io_valid(hdr.msgh_remote_port) ==> destroy_ok(s.ports, hdr.msgh_remote_port, hdr.msgh_bits & 0xff)
    &&& io_valid(hdr.msgh_local_port) ==> destroy_ok(s1.ports, hdr.msgh_local_port, (hdr.msgh_bits & 0xff00) >> 8u32)
}

/// Destroy the rights the header carries.
fn destroy_header(space: &ipc_space, ports: &mut Vec<ipc_port>, acts: &mut Vec<IpcAction>, hdr: mach_msg_header_t)
    requires
        header_destroy_ok(sst(*space, *old(ports), *old(acts)), hdr),
    ensures
        sst(*space, *final(ports), *final(acts)) == header_destroyed(sst(*space, *old(ports), *old(acts)), hdr),
{
    let dest = hdr.msgh_remote_port;
    if dest != IO_NULL && dest != IO_DEAD {
        ipc_object_destroy(space, ports, acts, dest, hdr.msgh_bits & 0xff);
    }
    let reply = hdr.msgh_local_port;
    if reply != IO_NULL && reply != IO_DEAD {
        ipc_object_destroy(space, ports, acts, reply, MACH_MSGH_BITS_LOCAL(hdr.msgh_bits));
    }
}

/// The first `number` rights of the item at `pos` (the one whose copy-in
/// stopped) destroyed, and its out-of-line data discarded.
pub open spec fn clean_last(s: SState, w: Seq<u32>, ool: Seq<Seq<u32>>, pos: int, number: u32) -> SState {
    let d = desc_at(w, pos);
    let dp = pos + d.hwords;
    let objs = if d.inline { w.subrange(dp, dp + number) } else { ool[w[dp] as int].take(number as int) };
    let s1 = if is_port_right(d.name) { destroy_each(s, objs, d.name) } else { s };
    if !d.inline && data_len(d) != 0 && !is_port_right(d.name) {
        sact(s1, IpcAction::DiscardCopy { copy: w[dp] })
    } else {
        s1
    }
}

/// What cleaning that item relies on.
pub open spec fn clean_last_ok(s: SState, w: Seq<u32>, ool: Seq<Seq<u32>>, pos: int, number: u32) -> bool {
    let d = desc_at(w, pos);
    let dp = pos + d.hwords;
    let objs = if d.inline { w.subrange(dp, dp + number) } else { ool[w[dp] as int].take(number as int) };
    &&& desc_fits(w, pos)
    &&& d.inline ==> dp + number <= w.len()
    &&& !d.inline ==> dp < w.len()
    &&& !d.inline && data_len(d) == 0 ==> w[dp] == 0
    &&& is_port_right(d.name) && !d.inline ==> w[dp] < ool.len() && number <= ool[w[dp] as int].len()
    &&& is_port_right(d.name) ==> destroy_each_ok(s, objs, d.name)
}

/// `ipc_kmsg_clean_partial`: the header's rights destroyed, the items
/// before word `eaddr` cleaned, and, with `dolast`, the first `number`
/// rights of the item at `eaddr` destroyed and its memory released.
pub open spec fn clean_partial_spec(s: SState, hdr: mach_msg_header_t, w: Seq<u32>, ool: Seq<Seq<u32>>, eaddr: int,
    dolast: bool, number: u32) -> SState
{
    let s1 = clean_items(header_destroyed(s, hdr), w, ool, 0, eaddr);
    if dolast { clean_last(s1, w, ool, eaddr, number) } else { s1 }
}

/// What `ipc_kmsg_clean_partial` relies on.
pub open spec fn clean_partial_ok(s: SState, hdr: mach_msg_header_t, w: Seq<u32>, ool: Seq<Seq<u32>>, eaddr: int,
    dolast: bool, number: u32) -> bool
{
    &&& io_valid(hdr.msgh_remote_port)
    &&& header_destroy_ok(s, hdr)
    &&& clean_items_ok(header_destroyed(s, hdr), w, ool, 0, eaddr)
    &&& dolast ==> clean_last_ok(clean_items(header_destroyed(s, hdr), w, ool, 0, eaddr), w, ool, eaddr, number)
}

/// `ipc_kmsg_clean_partial`: release what a message whose copy-in stopped
/// at the item at word `eaddr` holds.
pub fn ipc_kmsg_clean_partial(
    kmsg: &ipc_kmsg,
    space: &ipc_space,
    ports: &mut Vec<ipc_port>,
    acts: &mut Vec<IpcAction>,
    eaddr: usize,
    dolast: bool,
    number: u32,
)
    requires
        kmsg.ikm_body.len() < 0x4000_0000,
        clean_partial_ok(sst(*space, *old(ports), *old(acts)), kmsg.ikm_header, kmsg.ikm_body@, oolv(kmsg.ikm_ool_ports),
            eaddr as int, dolast, number),
    ensures
        sst(*space, *final(ports), *final(acts)) == clean_partial_spec(sst(*space, *old(ports), *old(acts)),
            kmsg.ikm_header, kmsg.ikm_body@, oolv(kmsg.ikm_ool_ports), eaddr as int, dolast, number),
{
    let w = &kmsg.ikm_body;
    let ool = &kmsg.ikm_ool_ports;
    destroy_header(space, ports, acts, kmsg.ikm_header);
    ipc_kmsg_clean_body(space, ports, acts, w, ool, 0, eaddr);
    if dolast {
        let ghost s1 = sst(*space, *ports, *acts);
        let d = read_desc(w, eaddr);
        let dp = eaddr + d.hwords as usize;
        let length = item_length(d);
        let port = carries_rights(d.name);
        if port {
            if d.inline {
                destroy_objects(space, ports, acts, w, dp, number as usize, d.name);
            } else {
                let idx = w[dp] as usize;
                assert(ool[idx as int]@ == oolv(*ool)[idx as int]);
                assert(ool[idx as int]@.subrange(0, number as int) =~= oolv(*ool)[idx as int].take(number as int));
                destroy_objects(space, ports, acts, &ool[idx], 0, number as usize, d.name);
            }
        }
        if !d.inline && length != 0 && !port {
            acts.push(IpcAction::DiscardCopy { copy: w[dp] });
        }
        proof {
            assert(sst(*space, *ports, *acts) =~= clean_last(s1, w@, oolv(*ool), eaddr as int, number));
        }
    }
}

/// `ipc_kmsg_clean`: the header's rights destroyed and, for a complex
/// message, every item of the body cleaned.
pub open spec fn clean_spec(s: SState, hdr: mach_msg_header_t, w: Seq<u32>, ool: Seq<Seq<u32>>) -> SState {
    let s1 = header_destroyed(s, hdr);
    if hdr.msgh_bits & MACH_MSGH_BITS_COMPLEX != 0 { clean_items(s1, w, ool, 0, w.len() as int) } else { s1 }
}

/// What `ipc_kmsg_clean` relies on.
pub open spec fn clean_ok(s: SState, hdr: mach_msg_header_t, w: Seq<u32>, ool: Seq<Seq<u32>>) -> bool {
    &&& header_destroy_ok(s, hdr)
    &&& hdr.msgh_bits & MACH_MSGH_BITS_COMPLEX != 0 ==> clean_items_ok(header_destroyed(s, hdr), w, ool, 0, w.len() as int)
}

/// The message's msg-accepted request, if it has one, destroyed.
pub open spec fn marequest_destroyed(s: SState, m: Option<u32>) -> SState {
    match m {
        Some(id) => sact(s, IpcAction::DestroyMarequest { marequest: id }),
        None => s,
    }
}

/// `ipc_kmsg_clean`: destroy the message's msg-accepted request, and
/// release every right and every out-of-line region the message holds.
pub fn ipc_kmsg_clean(kmsg: &ipc_kmsg, space: &ipc_space, ports: &mut Vec<ipc_port>, acts: &mut Vec<IpcAction>)
    requires
        kmsg.ikm_body.len() < 0x4000_0000,
        clean_ok(marequest_destroyed(sst(*space, *old(ports), *old(acts)), kmsg.ikm_marequest), kmsg.ikm_header,
            kmsg.ikm_body@, oolv(kmsg.ikm_ool_ports)),
    ensures
        sst(*space, *final(ports), *final(acts)) == clean_spec(
            marequest_destroyed(sst(*space, *old(ports), *old(acts)), kmsg.ikm_marequest),
            kmsg.ikm_header, kmsg.ikm_body@, oolv(kmsg.ikm_ool_ports)),
{
    if let Some(id) = kmsg.ikm_marequest {
        acts.push(IpcAction::DestroyMarequest { marequest: id });
    }
    assert(sst(*space, *ports, *acts) =~= marequest_destroyed(sst(*space, *old(ports), *old(acts)), kmsg.ikm_marequest));
    destroy_header(space, ports, acts, kmsg.ikm_header);
    if kmsg.ikm_header.msgh_bits & MACH_MSGH_BITS_COMPLEX != 0 {
        ipc_kmsg_clean_body(space, ports, acts, &kmsg.ikm_body, &kmsg.ikm_ool_ports, 0, kmsg.ikm_body.len());
    }
}

// ─── Copying a body in ───────────────────────────────────────────

/// A message in the kernel together with the state of the ports and of
/// the sender's space.
#[verifier::ext_equal]
pub ghost struct KState {
    pub hdr: mach_msg_header_t,
    pub w: Seq<u32>,
    pub ool: Seq<Seq<u32>>,
    pub s: SState,
}

pub open spec fn kst(kmsg: &ipc_kmsg, space: &ipc_space, ports: &Vec<ipc_port>, acts: &Vec<IpcAction>) -> KState {
    KState { hdr: kmsg.ikm_header, w: kmsg.ikm_body@, ool: oolv(kmsg.ikm_ool_ports), s: sst(*space, *ports, *acts) }
}

/// Where the copy-in (or copy-out) of a body stands.
#[derive(Clone, Copy, Debug, PartialEq, Eq, Structural)]
pub enum BodyStep {
    /// The body is done, with this result.
    Done { mr: mach_msg_return_t },
    /// The out-of-line region of the item at word `pos` needs the
    /// virtual-memory system: `length` bytes at `addr` in the sender's map
    /// (for `ports`, as many port names), to be deallocated from it when
    /// `dealloc`; `page_list` and `steal` say how the destination's kernel
    /// object takes pages.  The copy-in resumes with
    /// `ipc_kmsg_copyin_body_resume`.
    Ool { pos: usize, addr: u32, length: u32, dealloc: bool, ports: bool, page_list: bool, steal: bool },
}

/// What the virtual-memory system made of an out-of-line region.
pub enum OolResult {
    /// The region could not be copied.
    Failed,
    /// The data, as a copy object.
    Data { copy: u32 },
    /// The port names read from the region.
    Ports { names: Vec<u32> },
}

/// No entry of the space carries a name twice (`names_unique` on the
/// entries of a state).
pub open spec fn entries_unique(e: Seq<ipc_entry>) -> bool {
    forall|i: int, j: int| #![trigger e[i], e[j]]
        0 <= i < j < e.len() && in_use(e[i]) && in_use(e[j]) ==> e[i].ie_name != e[j].ie_name
}

/// A copy-in of the right `msgt` named `name`, on a state (the space's
/// entries among it): `ipc_object_copyin`.
pub open spec fn name_copyin(s: SState, active: bool, name: u32, msgt: u32) -> (i32, u32, SState) {
    if !active {
        (KERN_INVALID_TASK, 0, s)
    } else {
        match lookup_in(s.entries, name) {
            None => (KERN_INVALID_NAME, 0, s),
            Some(i) => {
                let (kr, object, soright, s1) = cin(s, i, msgt, true);
                let s2 = dealloc_if_none(s1, i);
                (kr, object, if kr == KERN_SUCCESS && soright != 0 {
                    sact(s2, IpcAction::NotifyPortDeleted { notify: soright, name })
                } else {
                    s2
                })
            },
        }
    }
}

/// The slot `i` of the ports of an item: inline at word `base + i` of the
/// body, or entry `i` of the out-of-line array `base`.
pub open spec fn slot(k: KState, inline: bool, base: int, i: int) -> u32 {
    if inline { k.w[base + i] } else { k.ool[base][i] }
}

pub open spec fn put_slot(k: KState, inline: bool, base: int, i: int, o: u32) -> KState {
    if inline {
        KState { w: k.w.update(base + i, o), ..k }
    } else {
        KState { ool: k.ool.update(base, k.ool[base].update(i, o)), ..k }
    }
}

/// The slots from `i` to `number` of an item carrying rights `msgt`
/// copied in, in order: a null or dead name stays as it is; another name
/// is copied in from the space (a receive right headed for `dest` may
/// close a loop of ports in transit, which marks the message circular).
/// Returns whether every one went in, the slot that failed, the state,
/// and whether each step could be taken.
pub open spec fn names_in(k: KState, active: bool, dest: u32, msgt: u32, inline: bool, base: int, i: int, number: int)
    -> (bool, int, KState, bool)
    decreases number - i,
{
    if i >= number {
        (true, number, k, true)
    } else {
        let n = slot(k, inline, base, i);
        if n == MACH_PORT_NAME_NULL || n == MACH_PORT_NAME_DEAD {
            names_in(k, active, dest, msgt, inline, base, i + 1, number)
        } else {
            let ok1 = entries_unique(k.s.entries) && (lookup_in(k.s.entries, n) matches Some(j) ==> cin_ok(k.s, j));
            let (kr, o, s1) = name_copyin(k.s, active, n, msgt);
            let k1 = KState { s: s1, ..k };
            if kr != KERN_SUCCESS {
                (false, i, k1, ok1)
            } else {
                let receive = copyin_type_spec(msgt) == MACH_MSG_TYPE_PORT_RECEIVE;
                let ok2 = receive ==> {
                    &&& 0 < o < s1.ports.len()
                    &&& chain_in_range(s1.ports, dest, s1.ports.len())
                    &&& chain_base(s1.ports, dest, s1.ports.len()) is Some
                    &&& s1.ports[dest as int].references < u32::MAX
                };
                let k2 = if !receive {
                    k1
                } else if circular(s1.ports, o, dest) {
                    KState { hdr: mach_msg_header_t { msgh_bits: k.hdr.msgh_bits | MACH_MSGH_BITS_CIRCULAR, ..k.hdr }, ..k1 }
                } else {
                    KState { s: SState { ports: linked(s1.ports, o, dest), ..s1 }, ..k1 }
                };
                let r = names_in(put_slot(k2, inline, base, i, o), active, dest, msgt, inline, base, i + 1, number);
                (r.0, r.1, r.2, ok1 && ok2 && r.3)
            }
        }
    }
}

/// The body once the descriptor at `pos` names the type its rights have
/// in the message.
pub open spec fn renamed(w: Seq<u32>, pos: int, d: Desc) -> Seq<u32> {
    let nn = copyin_type_spec(d.name);
    if d.longform { w.update(pos + 1, (w[pos + 1] & 0xffff_0000u32) | nn) } else { w.update(pos, (w[pos] & !0xffu32) | nn) }
}

/// The copy-in gives up at the item at `taddr` with `mr`, having released
/// what the message held (the first `number` rights of that item too,
/// with `dolast`).
pub open spec fn give_up(k: KState, taddr: int, dolast: bool, number: int, mr: i32) -> (BodyStep, KState, bool) {
    (
        BodyStep::Done { mr },
        KState { s: clean_partial_spec(k.s, k.hdr, k.w, k.ool, taddr, dolast, number as u32), ..k },
        clean_partial_ok(k.s, k.hdr, k.w, k.ool, taddr, dolast, number as u32),
    )
}

/// A descriptor the copy-in refuses: a port item whose elements are not
/// 32 bits, an item of protected payloads (which stand for no right a
/// sender can give), a long form whose short fields are not zero, the
/// unused bit set, or inline data to deallocate.
pub open spec fn bad_type(d: Desc) -> bool {
    (is_port_right(d.name) && d.size != 32) || d.name == MACH_MSG_TYPE_PROTECTED_PAYLOAD
        || (d.longform && !d.short_zero) || d.unused || (d.dealloc && d.inline)
}

/// An item of the type carries port rights: `MACH_MSG_TYPE_PORT_ANY`
/// without the payload, which a message in the kernel carries as data.
fn carries_rights(name: u32) -> (r: bool)
    ensures
        r == is_port_right(name),
{
    MACH_MSG_TYPE_PORT_ANY(name) && name != MACH_MSG_TYPE_PROTECTED_PAYLOAD
}

/// Whether the destination's kernel object takes out-of-line data as page
/// lists, and steals the pages.
pub open spec fn page_list(kotype: u32) -> bool {
    kotype == IKOT_PAGING_REQUEST || kotype == IKOT_DEVICE || kotype == IKOT_USER_DEVICE
}

/// The copy-in of the item at `pos` (`kotype` is the kind of kernel
/// object the destination stands for): `Err` with the outcome when it stops
/// (an error, or an out-of-line region to fetch), or `Ok` with the next
/// item's position; the state; whether each step could be taken.
pub open spec fn item_in(k: KState, active: bool, dest: u32, kotype: u32, pos: int, end: int) -> (Result<int, BodyStep>, KState, bool) {
    if !desc_fits(k.w, pos) {
        let g = give_up(k, pos, false, 0, MACH_SEND_MSG_TOO_SMALL);
        (Err(g.0), g.1, g.2)
    } else {
        let d = desc_at(k.w, pos);
        let port = is_port_right(d.name);
        let len = data_len(d);
        let dp = pos + d.hwords;
        if bad_type(d) {
            let g = give_up(k, pos, false, 0, MACH_SEND_INVALID_TYPE);
            (Err(g.0), g.1, g.2)
        } else if d.inline {
            if 4 * (end - dp) < data_bytes(d) {
                let g = give_up(k, pos, false, 0, MACH_SEND_MSG_TOO_SMALL);
                (Err(g.0), g.1, g.2)
            } else if port {
                let (ok, at, k2, okn) = names_in(KState { w: renamed(k.w, pos, d), ..k }, active, dest, d.name, true, dp, 0,
                    d.number as int);
                if !ok {
                    let g = give_up(k2, pos, true, at, MACH_SEND_INVALID_RIGHT);
                    (Err(g.0), g.1, okn && g.2)
                } else {
                    (Ok(dp + (len + 3) / 4), k2, okn)
                }
            } else {
                (Ok(dp + (len + 3) / 4), k, true)
            }
        } else if dp >= end {
            let g = give_up(k, pos, false, 0, MACH_SEND_MSG_TOO_SMALL);
            (Err(g.0), g.1, g.2)
        } else if data_bytes(d) > u32::MAX {
            let g = give_up(k, pos, false, 0, MACH_SEND_INVALID_MEMORY);
            (Err(g.0), g.1, g.2)
        } else if len == 0 {
            let k1 = KState { w: k.w.update(dp, 0), ..k };
            (Ok(dp + 1), if port { KState { w: renamed(k1.w, pos, d), ..k1 } } else { k1 }, true)
        } else {
            (
                Err(BodyStep::Ool {
                    pos: pos as usize,
                    addr: k.w[dp],
                    length: len,
                    dealloc: d.dealloc,
                    ports: port,
                    page_list: page_list(kotype),
                    steal: kotype == IKOT_PAGING_REQUEST,
                }),
                k,
                true,
            )
        }
    }
}

/// Does the item at `pos` make the message complex (it carries rights or
/// out-of-line data)?
pub open spec fn item_complex(w: Seq<u32>, pos: int) -> bool {
    let d = desc_at(w, pos);
    is_port_right(d.name) || !d.inline
}

/// `ipc_kmsg_copyin_body` from the item at `pos` to the end `end` of the
/// body; `complex` says whether an earlier item made the message complex.
/// When every item went in, a message that proved not complex loses its
/// complex bit.
pub open spec fn body_in(k: KState, active: bool, dest: u32, kotype: u32, pos: int, end: int, complex: bool) -> (BodyStep, KState, bool)
    decreases (if pos < end { end - pos } else { 0 }),
{
    if pos >= end {
        (
            BodyStep::Done { mr: MACH_MSG_SUCCESS },
            if complex { k } else { KState { hdr: mach_msg_header_t { msgh_bits: k.hdr.msgh_bits & !MACH_MSGH_BITS_COMPLEX, ..k.hdr }, ..k } },
            true,
        )
    } else {
        let (r, k1, ok) = item_in(k, active, dest, kotype, pos, end);
        match r {
            Err(step) => (step, k1, ok),
            Ok(next) => {
                if next > pos {
                    let b = body_in(k1, active, dest, kotype, next, end, complex || item_complex(k.w, pos));
                    (b.0, b.1, ok && b.2)
                } else {
                    (BodyStep::Done { mr: MACH_MSG_SUCCESS }, k1, false)
                }
            },
        }
    }
}

/// `ipc_kmsg_copyin_body`, resumed at the out-of-line item at `pos` with
/// what the virtual-memory system made of its region.
pub open spec fn body_in_resume(k: KState, active: bool, dest: u32, kotype: u32, pos: int, end: int, res: OolResult) -> (BodyStep, KState, bool) {
    let d = desc_at(k.w, pos);
    let dp = pos + d.hwords;
    let port = is_port_right(d.name);
    match res {
        OolResult::Failed => give_up(k, pos, false, 0, MACH_SEND_INVALID_MEMORY),
        OolResult::Data { copy } => {
            let b = body_in(KState { w: k.w.update(dp, copy), ..k }, active, dest, kotype, dp + 1, end, true);
            (b.0, b.1, !port && b.2)
        },
        OolResult::Ports { names } => {
            let idx = k.ool.len();
            let k1 = KState { w: renamed(k.w.update(dp, idx as u32), pos, d), ool: k.ool.push(names@), ..k };
            let (ok, at, k2, okn) = names_in(k1, active, dest, d.name, false, idx as int, 0, d.number as int);
            let fits = port && names@.len() == d.number && idx < u32::MAX;
            if !ok {
                let g = give_up(k2, pos, true, at, MACH_SEND_INVALID_RIGHT);
                (g.0, g.1, fits && okn && g.2)
            } else {
                let b = body_in(k2, active, dest, kotype, dp + 1, end, true);
                (b.0, b.1, fits && okn && b.2)
            }
        },
    }
}

/// The descriptor name's type replaced with the type its rights have in
/// the message.
fn rename_desc(w: &mut Vec<u32>, pos: usize, d: Desc)
    requires
        desc_fits(old(w)@, pos as int),
        d == desc_at(old(w)@, pos as int),
    ensures
        final(w)@ == renamed(old(w)@, pos as int, d),
{
    let nn = ipc_object_copyin_type(d.name);
    assert(d.longform ==> pos + 3 <= w.len());
    if d.longform {
        let x = w[pos + 1];
        w.set(pos + 1, (x & 0xffff_0000u32) | nn);
    } else {
        let x = w[pos];
        w.set(pos, (x & !0xffu32) | nn);
    }
}

/// Copy in the rights named in slots `0..number` of an item (inline at
/// word `base`, or in the out-of-line array `base`).
fn names_in_exec(
    kmsg: &mut ipc_kmsg,
    space: &mut ipc_space,
    ports: &mut Vec<ipc_port>,
    acts: &mut Vec<IpcAction>,
    dest: u32,
    msgt: u32,
    inline: bool,
    base: usize,
    number: u32,
) -> (r: (bool, u32))
    requires
        MACH_MSG_TYPE_MOVE_RECEIVE <= msgt <= MACH_MSG_TYPE_MAKE_SEND_ONCE,
        inline ==> base + number <= old(kmsg).ikm_body.len(),
        !inline ==> base < old(kmsg).ikm_ool_ports.len() && number <= old(kmsg).ikm_ool_ports[base as int].len(),
        names_in(kst(old(kmsg), old(space), old(ports), old(acts)), old(space).is_active, dest, msgt, inline, base as int, 0,
            number as int).3,
    ensures
        ({
            let r0 = names_in(kst(old(kmsg), old(space), old(ports), old(acts)), old(space).is_active, dest, msgt, inline,
                base as int, 0, number as int);
            &&& r.0 == r0.0
            &&& r.1 == r0.1
            &&& kst(final(kmsg), final(space), final(ports), final(acts)) == r0.2
        }),
        final(space).is_active == old(space).is_active,
        final(space).is_id == old(space).is_id,
        final(kmsg).ikm_body.len() == old(kmsg).ikm_body.len(),
        final(kmsg).ikm_ool_ports.len() == old(kmsg).ikm_ool_ports.len(),
{
    let ghost active = space.is_active;
    let ghost r0 = names_in(kst(kmsg, space, ports, acts), active, dest, msgt, inline, base as int, 0, number as int);
    let mut i: u32 = 0;
    while i < number
        invariant
            i <= number,
            active == space.is_active,
            active == old(space).is_active,
            space.is_id == old(space).is_id,
            MACH_MSG_TYPE_MOVE_RECEIVE <= msgt <= MACH_MSG_TYPE_MAKE_SEND_ONCE,
            kmsg.ikm_body.len() == old(kmsg).ikm_body.len(),
            kmsg.ikm_ool_ports.len() == old(kmsg).ikm_ool_ports.len(),
            inline ==> base + number <= kmsg.ikm_body.len(),
            !inline ==> base < kmsg.ikm_ool_ports.len() && number <= kmsg.ikm_ool_ports[base as int].len(),
            r0 == names_in(kst(old(kmsg), old(space), old(ports), old(acts)), old(space).is_active, dest, msgt, inline,
                base as int, 0, number as int),
            ({
                let r = names_in(kst(kmsg, space, ports, acts), active, dest, msgt, inline, base as int, i as int, number as int);
                r.0 == r0.0 && r.1 == r0.1 && r.2 == r0.2 && r.3
            }),
        decreases number - i,
    {
        let ghost k = kst(kmsg, space, ports, acts);
        let n = if inline { kmsg.ikm_body[base + i as usize] } else { kmsg.ikm_ool_ports[base][i as usize] };
        assert(n == slot(k, inline, base as int, i as int));
        if n != MACH_PORT_NAME_NULL && n != MACH_PORT_NAME_DEAD {
            let (kr, o) = ipc_object_copyin(space, ports, acts, n, msgt);
            if kr != KERN_SUCCESS {
                return (false, i);
            }
            if ipc_object_copyin_type(msgt) == MACH_MSG_TYPE_PORT_RECEIVE {
                let circ = ipc_port_check_circularity(ports, o, dest);
                if circ {
                    kmsg.ikm_header.msgh_bits = kmsg.ikm_header.msgh_bits | MACH_MSGH_BITS_CIRCULAR;
                }
            }
            if inline {
                kmsg.ikm_body.set(base + i as usize, o);
            } else {
                kmsg.ikm_ool_ports[base].set(i as usize, o);
            }
            proof {
                let (kr0, o0, s1) = name_copyin(k.s, active, n, msgt);
                let receive = copyin_type_spec(msgt) == MACH_MSG_TYPE_PORT_RECEIVE;
                let k1 = KState { s: s1, ..k };
                let k2 = if !receive {
                    k1
                } else if circular(s1.ports, o0, dest) {
                    KState { hdr: mach_msg_header_t { msgh_bits: k.hdr.msgh_bits | MACH_MSGH_BITS_CIRCULAR, ..k.hdr }, ..k1 }
                } else {
                    KState { s: SState { ports: linked(s1.ports, o0, dest), ..s1 }, ..k1 }
                };
                let want = put_slot(k2, inline, base as int, i as int, o0);
                assert(kst(kmsg, space, ports, acts).hdr == want.hdr);
                assert(kst(kmsg, space, ports, acts).w =~= want.w);
                assert(kst(kmsg, space, ports, acts).ool =~= want.ool);
                assert(kst(kmsg, space, ports, acts).s =~= want.s);
                assert(kst(kmsg, space, ports, acts) =~= want);
            }
        }
        i = i + 1;
    }
    (true, number)
}

/// Give up the copy-in at the item at `taddr`: release what the message
/// holds and report `mr`.
fn give_up_exec(
    kmsg: &ipc_kmsg,
    space: &ipc_space,
    ports: &mut Vec<ipc_port>,
    acts: &mut Vec<IpcAction>,
    taddr: usize,
    dolast: bool,
    number: u32,
    mr: mach_msg_return_t,
) -> (r: BodyStep)
    requires
        kmsg.ikm_body.len() < 0x4000_0000,
        give_up(kst(kmsg, space, old(ports), old(acts)), taddr as int, dolast, number as int, mr).2,
    ensures
        (r, kst(kmsg, space, final(ports), final(acts)))
            == (give_up(kst(kmsg, space, old(ports), old(acts)), taddr as int, dolast, number as int, mr).0,
                give_up(kst(kmsg, space, old(ports), old(acts)), taddr as int, dolast, number as int, mr).1),
{
    ipc_kmsg_clean_partial(kmsg, space, ports, acts, taddr, dolast, number);
    BodyStep::Done { mr }
}

/// A port item's data, with fewer than 2^30 ports of 32 bits, takes four
/// bytes a port.
proof fn lemma_port_len(d: Desc)
    requires
        d.size == 32,
        d.number < 0x4000_0000,
    ensures
        data_len(d) == 4 * d.number,
        data_bytes(d) == 4 * d.number,
        (data_len(d) + 3) / 4 == d.number,
{
    assert((d.number * 32 + 7) / 8 == 4 * d.number) by (nonlinear_arith)
        requires d.number < 0x4000_0000;
}

/// A port item of 32-bit ports whose bytes fit in 32 bits has fewer than
/// 2^30 ports.
proof fn lemma_port_bytes(d: Desc, room: int)
    requires
        d.size == 32,
        data_bytes(d) <= room,
        room < 0x1_0000_0000,
    ensures
        d.number < 0x4000_0000,
{
    assert((d.number * 32 + 7) / 8 == 4 * d.number) by (nonlinear_arith);
}

/// The exact bytes of an item's data.
fn item_bytes(d: Desc) -> (r: u64)
    requires
        d.size < 0x1_0000,
    ensures
        r == data_bytes(d),
        r <= u32::MAX ==> r == data_len(d),
{
    let n = d.number as u64;
    let z = d.size as u64;
    assert(n * z < 0x1_0000_0000_0000) by (nonlinear_arith)
        requires
            n < 0x1_0000_0000,
            z < 0x1_0000,
    ;
    let x: u64 = n * z + 7;
    assert(x >> 3 == x / 8) by (bit_vector);
    assert(x as int == d.number * d.size + 7);
    x >> 3
}

/// The copy-in of the item at `pos`; on `Ok`, the next item's position
/// and whether the item makes the message complex.
fn item_in_exec(
    kmsg: &mut ipc_kmsg,
    space: &mut ipc_space,
    ports: &mut Vec<ipc_port>,
    acts: &mut Vec<IpcAction>,
    dest: u32,
    kotype: u32,
    pos: usize,
) -> (r: Result<(usize, bool), BodyStep>)
    requires
        old(kmsg).ikm_body.len() < 0x4000_0000,
        pos < old(kmsg).ikm_body.len(),
        item_in(kst(old(kmsg), old(space), old(ports), old(acts)), old(space).is_active, dest, kotype, pos as int,
            old(kmsg).ikm_body.len() as int).2,
    ensures
        ({
            let (r0, k1, ok) = item_in(kst(old(kmsg), old(space), old(ports), old(acts)), old(space).is_active, dest, kotype,
                pos as int, old(kmsg).ikm_body.len() as int);
            &&& kst(final(kmsg), final(space), final(ports), final(acts)) == k1
            &&& match r {
                Ok((next, cx)) => r0 == Ok::<int, BodyStep>(next as int) && cx == item_complex(old(kmsg).ikm_body@, pos as int),
                Err(st) => r0 == Err::<int, BodyStep>(st),
            }
        }),
        final(space).is_active == old(space).is_active,
        final(space).is_id == old(space).is_id,
        final(kmsg).ikm_body.len() == old(kmsg).ikm_body.len(),
{
    let end = kmsg.ikm_body.len();
    let h = kmsg.ikm_body[pos];
    if (h >> 29) & 1 == 1 && end - pos < 3 {
        return Err(give_up_exec(kmsg, space, ports, acts, pos, false, 0, MACH_SEND_MSG_TOO_SMALL));
    }
    let d = read_desc(&kmsg.ikm_body, pos);
    let port = carries_rights(d.name);
    let bytes = item_bytes(d);
    let dp = pos + d.hwords as usize;
    let cx = port || !d.inline;
    if (port && d.size != 32) || d.name == MACH_MSG_TYPE_PROTECTED_PAYLOAD || (d.longform && !d.short_zero) || d.unused
        || (d.dealloc && d.inline) {
        return Err(give_up_exec(kmsg, space, ports, acts, pos, false, 0, MACH_SEND_INVALID_TYPE));
    }
    if d.inline {
        if 4 * ((end - dp) as u64) < bytes {
            return Err(give_up_exec(kmsg, space, ports, acts, pos, false, 0, MACH_SEND_MSG_TOO_SMALL));
        }
        let length = bytes as u32;
        let next = dp + ((length as u64 + 3) / 4) as usize;
        if port {
            proof {
                lemma_port_bytes(d, 4 * (end - dp) as int);
                lemma_port_len(d);
            }
            rename_desc(&mut kmsg.ikm_body, pos, d);
            let (ok, at) = names_in_exec(kmsg, space, ports, acts, dest, d.name, true, dp, d.number);
            if !ok {
                return Err(give_up_exec(kmsg, space, ports, acts, pos, true, at, MACH_SEND_INVALID_RIGHT));
            }
        }
        return Ok((next, cx));
    }
    if dp >= end {
        return Err(give_up_exec(kmsg, space, ports, acts, pos, false, 0, MACH_SEND_MSG_TOO_SMALL));
    }
    if bytes > u32::MAX as u64 {
        return Err(give_up_exec(kmsg, space, ports, acts, pos, false, 0, MACH_SEND_INVALID_MEMORY));
    }
    let length = bytes as u32;
    if length == 0 {
        kmsg.ikm_body.set(dp, 0);
        if port {
            rename_desc(&mut kmsg.ikm_body, pos, d);
        }
        return Ok((dp + 1, cx));
    }
    Err(BodyStep::Ool {
        pos,
        addr: kmsg.ikm_body[dp],
        length,
        dealloc: d.dealloc,
        ports: port,
        page_list: kotype == IKOT_PAGING_REQUEST || kotype == IKOT_DEVICE || kotype == IKOT_USER_DEVICE,
        steal: kotype == IKOT_PAGING_REQUEST,
    })
}

/// The copy-in from the item at `pos` on.
fn body_in_exec(
    kmsg: &mut ipc_kmsg,
    space: &mut ipc_space,
    ports: &mut Vec<ipc_port>,
    acts: &mut Vec<IpcAction>,
    dest: u32,
    kotype: u32,
    start: usize,
    complex0: bool,
) -> (r: BodyStep)
    requires
        old(kmsg).ikm_body.len() < 0x4000_0000,
        body_in(kst(old(kmsg), old(space), old(ports), old(acts)), old(space).is_active, dest, kotype, start as int,
            old(kmsg).ikm_body.len() as int, complex0).2,
    ensures
        ({
            let b = body_in(kst(old(kmsg), old(space), old(ports), old(acts)), old(space).is_active, dest, kotype, start as int,
                old(kmsg).ikm_body.len() as int, complex0);
            r == b.0 && kst(final(kmsg), final(space), final(ports), final(acts)) == b.1
        }),
        final(space).is_active == old(space).is_active,
        final(space).is_id == old(space).is_id,
{
    let ghost active = space.is_active;
    let ghost end = kmsg.ikm_body.len() as int;
    let ghost b0 = body_in(kst(kmsg, space, ports, acts), active, dest, kotype, start as int, end, complex0);
    let mut pos = start;
    let mut complex = complex0;
    while pos < kmsg.ikm_body.len()
        invariant
            kmsg.ikm_body.len() == end,
            end < 0x4000_0000,
            active == space.is_active,
            active == old(space).is_active,
            space.is_id == old(space).is_id,
            b0 == body_in(kst(old(kmsg), old(space), old(ports), old(acts)), old(space).is_active, dest, kotype,
                start as int, old(kmsg).ikm_body.len() as int, complex0),
            ({
                let b = body_in(kst(kmsg, space, ports, acts), active, dest, kotype, pos as int, end, complex);
                b.0 == b0.0 && b.1 == b0.1 && b.2
            }),
        decreases end - pos,
    {
        match item_in_exec(kmsg, space, ports, acts, dest, kotype, pos) {
            Err(st) => {
                return st;
            },
            Ok((next, cx)) => {
                complex = complex || cx;
                pos = next;
            },
        }
    }
    let ghost k = kst(kmsg, space, ports, acts);
    if !complex {
        kmsg.ikm_header.msgh_bits = kmsg.ikm_header.msgh_bits & !MACH_MSGH_BITS_COMPLEX;
    }
    assert(kst(kmsg, space, ports, acts) =~= body_in(k, active, dest, kotype, pos as int, end, complex).1);
    BodyStep::Done { mr: MACH_MSG_SUCCESS }
}

/// `ipc_kmsg_copyin_body`: copy in the rights and out-of-line regions
/// the body of a message carries from the sender's space; the message's
/// destination (`msgh_remote_port`) is already a port.  Stops at the first
/// out-of-line region that needs the virtual-memory system, to resume with
/// `ipc_kmsg_copyin_body_resume`.
pub fn ipc_kmsg_copyin_body(kmsg: &mut ipc_kmsg, space: &mut ipc_space, ports: &mut Vec<ipc_port>, acts: &mut Vec<IpcAction>)
    -> (r: BodyStep)
    requires
        old(kmsg).ikm_body.len() < 0x4000_0000,
        old(kmsg).ikm_header.msgh_remote_port < old(ports).len(),
        body_in(kst(old(kmsg), old(space), old(ports), old(acts)), old(space).is_active, old(kmsg).ikm_header.msgh_remote_port,
            old(ports)[old(kmsg).ikm_header.msgh_remote_port as int].ip_kotype, 0, old(kmsg).ikm_body.len() as int, false).2,
    ensures
        ({
            let b = body_in(kst(old(kmsg), old(space), old(ports), old(acts)), old(space).is_active,
                old(kmsg).ikm_header.msgh_remote_port, old(ports)[old(kmsg).ikm_header.msgh_remote_port as int].ip_kotype, 0,
                old(kmsg).ikm_body.len() as int, false);
            r == b.0 && kst(final(kmsg), final(space), final(ports), final(acts)) == b.1
        }),
        final(space).is_active == old(space).is_active,
        final(space).is_id == old(space).is_id,
{
    let dest = kmsg.ikm_header.msgh_remote_port;
    let kotype = ports[dest as usize].ip_kotype;
    body_in_exec(kmsg, space, ports, acts, dest, kotype, 0, false)
}

/// `ipc_kmsg_copyin_body`, resumed at the out-of-line item at word `pos`
/// with what the virtual-memory system made of its region: the copy
/// object of its data, the port names read from it, or a failure
/// (`MACH_SEND_INVALID_MEMORY`).
pub fn ipc_kmsg_copyin_body_resume(
    kmsg: &mut ipc_kmsg,
    space: &mut ipc_space,
    ports: &mut Vec<ipc_port>,
    acts: &mut Vec<IpcAction>,
    pos: usize,
    res: OolResult,
) -> (r: BodyStep)
    requires
        old(kmsg).ikm_body.len() < 0x4000_0000,
        old(kmsg).ikm_ool_ports.len() < u32::MAX,
        old(kmsg).ikm_header.msgh_remote_port < old(ports).len(),
        desc_fits(old(kmsg).ikm_body@, pos as int),
        pos + desc_at(old(kmsg).ikm_body@, pos as int).hwords < old(kmsg).ikm_body.len(),
        body_in_resume(kst(old(kmsg), old(space), old(ports), old(acts)), old(space).is_active,
            old(kmsg).ikm_header.msgh_remote_port, old(ports)[old(kmsg).ikm_header.msgh_remote_port as int].ip_kotype,
            pos as int, old(kmsg).ikm_body.len() as int, res).2,
    ensures
        ({
            let b = body_in_resume(kst(old(kmsg), old(space), old(ports), old(acts)), old(space).is_active,
                old(kmsg).ikm_header.msgh_remote_port, old(ports)[old(kmsg).ikm_header.msgh_remote_port as int].ip_kotype,
                pos as int, old(kmsg).ikm_body.len() as int, res);
            r == b.0 && kst(final(kmsg), final(space), final(ports), final(acts)) == b.1
        }),
        final(space).is_active == old(space).is_active,
        final(space).is_id == old(space).is_id,
{
    let dest = kmsg.ikm_header.msgh_remote_port;
    let kotype = ports[dest as usize].ip_kotype;
    let d = read_desc(&kmsg.ikm_body, pos);
    let dp = pos + d.hwords as usize;
    match res {
        OolResult::Failed => give_up_exec(kmsg, space, ports, acts, pos, false, 0, MACH_SEND_INVALID_MEMORY),
        OolResult::Data { copy } => {
            kmsg.ikm_body.set(dp, copy);
            body_in_exec(kmsg, space, ports, acts, dest, kotype, dp + 1, true)
        },
        OolResult::Ports { names } => {
            let idx = kmsg.ikm_ool_ports.len();
            kmsg.ikm_body.set(dp, idx as u32);
            rename_desc(&mut kmsg.ikm_body, pos, d);
            kmsg.ikm_ool_ports.push(names);
            proof {
                assert(oolv(kmsg.ikm_ool_ports) =~= oolv(old(kmsg).ikm_ool_ports).push(names@));
            }
            let (ok, at) = names_in_exec(kmsg, space, ports, acts, dest, d.name, false, idx, d.number);
            if !ok {
                return give_up_exec(kmsg, space, ports, acts, pos, true, at, MACH_SEND_INVALID_RIGHT);
            }
            body_in_exec(kmsg, space, ports, acts, dest, kotype, dp + 1, true)
        },
    }
}

// ─── Copying a body out ──────────────────────────────────────────

/// Where the copy-out of a body stands.
#[derive(Clone, Copy, Debug, PartialEq, Eq, Structural)]
pub enum CopyoutStep {
    /// The body is done; `mr` gathers what went wrong on the way.
    Done { mr: mach_msg_return_t },
    /// The out-of-line item at word `pos` needs the receiver's map: room
    /// for `length` bytes of port names (`ports`; once they are copied
    /// out, the names stand in the message's array the item's word
    /// indexes), or the copy object `copy` mapped in.  The copy-out
    /// resumes with `ipc_kmsg_copyout_body_resume`, passing back `used`
    /// (how many fresh names were offered so far) and `mr`.
    Ool { pos: usize, copy: u32, length: u32, ports: bool, used: usize, mr: mach_msg_return_t },
}

/// Copying the right `msgt` to `o` out into the receiver's space (which
/// the state's entries, `id` and `active` describe) can be done.
pub open spec fn slot_out_ok(k: KState, id: u32, active: bool, o: u32, msgt: u32, f: u32) -> bool {
    forall|sp: ipc_space| sp.is_entries@ == k.s.entries && sp.is_id == id && sp.is_active == active
        ==> #[trigger] kmsg_copyout_object_ok(sp, k.s.ports, o, msgt, f)
}

/// The slots from `i` to `number` of an item carrying rights `msgt`
/// copied out into the receiver's space, in order, each replaced by its
/// name there; the `c`-th right copied out of the body is offered the
/// fresh name `fresh[c]`, and the results are gathered into `mr`.
pub open spec fn names_out(k: KState, active: bool, id: u32, msgt: u32, inline: bool, base: int, i: int, number: int,
    fresh: Seq<u32>, c: int, mr: i32) -> (KState, int, i32, bool)
    decreases number - i,
{
    if i >= number {
        (k, c, mr, true)
    } else {
        let o = slot(k, inline, base, i);
        let f = fresh[c];
        let ok1 = 0 <= c < fresh.len() && slot_out_ok(k, id, active, o, msgt, f);
        let (r, name, s1) = kmsg_copyout_object_spec(k.s, active, id, o, msgt, f);
        let rest = names_out(put_slot(KState { s: s1, ..k }, inline, base, i, name), active, id, msgt, inline, base, i + 1,
            number, fresh, c + 1, mr | r);
        (rest.0, rest.1, rest.2, ok1 && rest.3)
    }
}

/// The descriptor at `pos` with its deallocate bit set to `on`.
pub open spec fn with_dealloc(w: Seq<u32>, pos: int, on: bool) -> Seq<u32> {
    w.update(pos, if on { w[pos] | 0x4000_0000u32 } else { w[pos] & !0x4000_0000u32 })
}

/// The descriptor at `pos` with its element size set to 0.
pub open spec fn sized_zero(w: Seq<u32>, pos: int, d: Desc) -> Seq<u32> {
    if d.longform { w.update(pos + 1, w[pos + 1] & 0xffffu32) } else { w.update(pos, w[pos] & !0xff00u32) }
}

/// What a failed out-of-line copy-out adds to the result.
pub open spec fn vm_failure(kr: i32) -> i32 {
    if kr == KERN_RESOURCE_SHORTAGE { MACH_MSG_VM_KERNEL } else { MACH_MSG_VM_SPACE }
}

/// The copy-out of the item at `pos`: `Err` with the step when it stops
/// for the receiver's map, or `Ok` with the next item's position, the
/// fresh names used and the result so far; the state; whether each step
/// could be taken.  An inline item loses its deallocate bit; an empty
/// out-of-line item is recorded at address 0 with the bit set.
pub open spec fn item_out(k: KState, active: bool, id: u32, pos: int, end: int, fresh: Seq<u32>, c: int, mr: i32)
    -> (Result<(int, int, i32), CopyoutStep>, KState, bool)
{
    let d = desc_at(k.w, pos);
    let dp = pos + d.hwords;
    let len = data_len(d);
    let port = is_port_right(d.name);
    let okd = desc_fits(k.w, pos) && dp <= end && (!d.inline ==> dp < end) && (d.inline ==> dp + data_words(d) <= end)
        && (port ==> d.size == 32 && d.number < 0x4000_0000);
    if !d.inline && len != 0 {
        (Err(CopyoutStep::Ool { pos: pos as usize, copy: k.w[dp], length: len, ports: port, used: c as usize, mr }), k, okd)
    } else {
        let (k1, c1, mr1, okn) = if port {
            names_out(k, active, id, d.name, d.inline, if d.inline { dp } else { k.w[dp] as int }, 0, d.number as int, fresh, c, mr)
        } else {
            (k, c, mr, true)
        };
        if d.inline {
            (Ok((dp + (len + 3) / 4, c1, mr1)), KState { w: with_dealloc(k1.w, pos, false), ..k1 }, okd && okn)
        } else {
            (Ok((dp + 1, c1, mr1)), KState { w: with_dealloc(k1.w, pos, true).update(dp, 0), ..k1 }, okd && okn && k.w[dp] == 0)
        }
    }
}

/// `ipc_kmsg_copyout_body` from the item at `pos` to the end `end`.
pub open spec fn body_out(k: KState, active: bool, id: u32, pos: int, end: int, fresh: Seq<u32>, c: int, mr: i32)
    -> (CopyoutStep, KState, bool)
    decreases (if pos < end { end - pos } else { 0 }),
{
    if pos >= end {
        (CopyoutStep::Done { mr }, k, true)
    } else {
        let (r, k1, ok) = item_out(k, active, id, pos, end, fresh, c, mr);
        match r {
            Err(step) => (step, k1, ok),
            Ok((next, c1, mr1)) => {
                if next > pos {
                    let b = body_out(k1, active, id, next, end, fresh, c1, mr1);
                    (b.0, b.1, ok && b.2)
                } else {
                    (CopyoutStep::Done { mr: mr1 }, k1, false)
                }
            },
        }
    }
}

/// `ipc_kmsg_copyout_body`, resumed at the out-of-line item at `pos` with
/// what the receiver's map made of it: for ports, the address of the room
/// allocated for the names (the rights are then copied out) or the
/// failure (the rights are destroyed); for data, the address it was
/// mapped at or the failure (the copy is discarded).  A failure records
/// address 0 and element size 0.
pub open spec fn body_out_resume(k: KState, active: bool, id: u32, pos: int, end: int, fresh: Seq<u32>, c: int, mr: i32,
    res: Result<u32, i32>) -> (CopyoutStep, KState, bool)
{
    let d = desc_at(k.w, pos);
    let dp = pos + d.hwords;
    let port = is_port_right(d.name);
    let okd = desc_fits(k.w, pos) && dp < end && end <= k.w.len();
    match res {
        Ok(addr) => {
            let (k1, c1, mr1, okn) = if port {
                names_out(k, active, id, d.name, false, k.w[dp] as int, 0, d.number as int, fresh, c, mr)
            } else {
                (k, c, mr, true)
            };
            let k2 = KState { w: with_dealloc(k1.w, pos, true).update(dp, addr), ..k1 };
            let b = body_out(k2, active, id, dp + 1, end, fresh, c1, mr1);
            (b.0, b.1, okd && okn && b.2)
        },
        Err(kr) => {
            let s1 = if port { clean_items(k.s, k.w, k.ool, pos, dp) } else { sact(k.s, IpcAction::DiscardCopy { copy: k.w[dp] }) };
            let okc = port ==> clean_items_ok(k.s, k.w, k.ool, pos, dp);
            let k2 = KState { w: with_dealloc(sized_zero(k.w, pos, d), pos, true).update(dp, 0), s: s1, ..k };
            let b = body_out(k2, active, id, dp + 1, end, fresh, c, mr | vm_failure(kr));
            (b.0, b.1, okd && okc && b.2)
        },
    }
}

/// Copy out the rights in slots `0..number` of an item.
fn names_out_exec(
    kmsg: &mut ipc_kmsg,
    space: &mut ipc_space,
    ports: &mut Vec<ipc_port>,
    acts: &mut Vec<IpcAction>,
    msgt: u32,
    inline: bool,
    base: usize,
    number: u32,
    fresh: &Vec<u32>,
    c: usize,
    mr: mach_msg_return_t,
) -> (r: (usize, mach_msg_return_t))
    requires
        inline ==> base + number <= old(kmsg).ikm_body.len(),
        !inline ==> base < old(kmsg).ikm_ool_ports.len() && number <= old(kmsg).ikm_ool_ports[base as int].len(),
        names_out(kst(old(kmsg), old(space), old(ports), old(acts)), old(space).is_active, old(space).is_id, msgt, inline,
            base as int, 0, number as int, fresh@, c as int, mr).3,
    ensures
        ({
            let r0 = names_out(kst(old(kmsg), old(space), old(ports), old(acts)), old(space).is_active, old(space).is_id, msgt,
                inline, base as int, 0, number as int, fresh@, c as int, mr);
            &&& kst(final(kmsg), final(space), final(ports), final(acts)) == r0.0
            &&& r.0 == r0.1
            &&& r.1 == r0.2
        }),
        final(space).is_active == old(space).is_active,
        final(space).is_id == old(space).is_id,
        final(kmsg).ikm_body.len() == old(kmsg).ikm_body.len(),
        final(kmsg).ikm_ool_ports.len() == old(kmsg).ikm_ool_ports.len(),
{
    let ghost active = space.is_active;
    let ghost id = space.is_id;
    let ghost r0 = names_out(kst(kmsg, space, ports, acts), active, id, msgt, inline, base as int, 0, number as int, fresh@,
        c as int, mr);
    let mut i: u32 = 0;
    let mut c = c;
    let mut mr = mr;
    while i < number
        invariant
            i <= number,
            active == space.is_active,
            id == space.is_id,
            active == old(space).is_active,
            id == old(space).is_id,
            kmsg.ikm_body.len() == old(kmsg).ikm_body.len(),
            kmsg.ikm_ool_ports.len() == old(kmsg).ikm_ool_ports.len(),
            inline ==> base + number <= kmsg.ikm_body.len(),
            !inline ==> base < kmsg.ikm_ool_ports.len() && number <= kmsg.ikm_ool_ports[base as int].len(),
            ({
                let r = names_out(kst(kmsg, space, ports, acts), active, id, msgt, inline, base as int, i as int, number as int,
                    fresh@, c as int, mr);
                r.0 == r0.0 && r.1 == r0.1 && r.2 == r0.2 && r.3
            }),
        decreases number - i,
    {
        let ghost k = kst(kmsg, space, ports, acts);
        let o = if inline { kmsg.ikm_body[base + i as usize] } else { kmsg.ikm_ool_ports[base][i as usize] };
        assert(o == slot(k, inline, base as int, i as int));
        assert(c < fresh.len());
        let f = fresh[c];
        assert(kmsg_copyout_object_ok(*space, pv(*ports), o, msgt, f));
        let (r, name) = ipc_kmsg_copyout_object(space, ports, acts, o, msgt, f);
        if inline {
            kmsg.ikm_body.set(base + i as usize, name);
        } else {
            kmsg.ikm_ool_ports[base].set(i as usize, name);
        }
        proof {
            let (r1, name1, s1) = kmsg_copyout_object_spec(k.s, active, id, o, msgt, f);
            let want = put_slot(KState { s: s1, ..k }, inline, base as int, i as int, name1);
            assert(kst(kmsg, space, ports, acts).w =~= want.w);
            assert(kst(kmsg, space, ports, acts).ool =~= want.ool);
            assert(kst(kmsg, space, ports, acts).s =~= want.s);
            assert(kst(kmsg, space, ports, acts) =~= want);
        }
        mr = mr | r;
        c = c + 1;
        i = i + 1;
    }
    (c, mr)
}

/// The copy-out of the item at `pos`; on `Ok`, the next item's position,
/// the fresh names used and the result so far.
fn item_out_exec(
    kmsg: &mut ipc_kmsg,
    space: &mut ipc_space,
    ports: &mut Vec<ipc_port>,
    acts: &mut Vec<IpcAction>,
    pos: usize,
    fresh: &Vec<u32>,
    c: usize,
    mr: mach_msg_return_t,
) -> (r: Result<(usize, usize, mach_msg_return_t), CopyoutStep>)
    requires
        old(kmsg).ikm_body.len() < 0x4000_0000,
        pos < old(kmsg).ikm_body.len(),
        item_out(kst(old(kmsg), old(space), old(ports), old(acts)), old(space).is_active, old(space).is_id, pos as int,
            old(kmsg).ikm_body.len() as int, fresh@, c as int, mr).2,
    ensures
        ({
            let (r0, k1, ok) = item_out(kst(old(kmsg), old(space), old(ports), old(acts)), old(space).is_active,
                old(space).is_id, pos as int, old(kmsg).ikm_body.len() as int, fresh@, c as int, mr);
            &&& kst(final(kmsg), final(space), final(ports), final(acts)) == k1
            &&& match r {
                Ok((next, c1, mr1)) => r0 == Ok::<(int, int, i32), CopyoutStep>((next as int, c1 as int, mr1)),
                Err(st) => r0 == Err::<(int, int, i32), CopyoutStep>(st),
            }
        }),
        final(space).is_active == old(space).is_active,
        final(space).is_id == old(space).is_id,
        final(kmsg).ikm_body.len() == old(kmsg).ikm_body.len(),
        final(kmsg).ikm_ool_ports.len() == old(kmsg).ikm_ool_ports.len(),
{
    let d = read_desc(&kmsg.ikm_body, pos);
    let dp = pos + d.hwords as usize;
    let length = item_length(d);
    let port = carries_rights(d.name);
    if !d.inline && length != 0 {
        return Err(CopyoutStep::Ool { pos, copy: kmsg.ikm_body[dp], length, ports: port, used: c, mr });
    }
    let mut c1 = c;
    let mut mr1 = mr;
    if port {
        proof { lemma_port_len(d); }
    }
    if port && d.inline {
        let base = if d.inline { dp } else { kmsg.ikm_body[dp] as usize };
        let (cc, mm) = names_out_exec(kmsg, space, ports, acts, d.name, d.inline, base, d.number, fresh, c, mr);
        c1 = cc;
        mr1 = mm;
    }
    if d.inline {
        let x = kmsg.ikm_body[pos];
        kmsg.ikm_body.set(pos, x & !0x4000_0000u32);
        Ok((dp + ((length as u64 + 3) / 4) as usize, c1, mr1))
    } else {
        let x = kmsg.ikm_body[pos];
        kmsg.ikm_body.set(pos, x | 0x4000_0000u32);
        kmsg.ikm_body.set(dp, 0);
        Ok((dp + 1, c1, mr1))
    }
}

/// The copy-out from the item at `start` on.
fn body_out_exec(
    kmsg: &mut ipc_kmsg,
    space: &mut ipc_space,
    ports: &mut Vec<ipc_port>,
    acts: &mut Vec<IpcAction>,
    start: usize,
    fresh: &Vec<u32>,
    c0: usize,
    mr0: mach_msg_return_t,
) -> (r: CopyoutStep)
    requires
        old(kmsg).ikm_body.len() < 0x4000_0000,
        body_out(kst(old(kmsg), old(space), old(ports), old(acts)), old(space).is_active, old(space).is_id, start as int,
            old(kmsg).ikm_body.len() as int, fresh@, c0 as int, mr0).2,
    ensures
        ({
            let b = body_out(kst(old(kmsg), old(space), old(ports), old(acts)), old(space).is_active, old(space).is_id,
                start as int, old(kmsg).ikm_body.len() as int, fresh@, c0 as int, mr0);
            r == b.0 && kst(final(kmsg), final(space), final(ports), final(acts)) == b.1
        }),
        final(space).is_active == old(space).is_active,
        final(space).is_id == old(space).is_id,
{
    let ghost active = space.is_active;
    let ghost id = space.is_id;
    let ghost end = kmsg.ikm_body.len() as int;
    let ghost b0 = body_out(kst(kmsg, space, ports, acts), active, id, start as int, end, fresh@, c0 as int, mr0);
    let mut pos = start;
    let mut c = c0;
    let mut mr = mr0;
    while pos < kmsg.ikm_body.len()
        invariant
            kmsg.ikm_body.len() == end,
            end < 0x4000_0000,
            active == space.is_active,
            id == space.is_id,
            active == old(space).is_active,
            id == old(space).is_id,
            b0 == body_out(kst(old(kmsg), old(space), old(ports), old(acts)), old(space).is_active, old(space).is_id,
                start as int, old(kmsg).ikm_body.len() as int, fresh@, c0 as int, mr0),
            ({
                let b = body_out(kst(kmsg, space, ports, acts), active, id, pos as int, end, fresh@, c as int, mr);
                b.0 == b0.0 && b.1 == b0.1 && b.2
            }),
        decreases end - pos,
    {
        match item_out_exec(kmsg, space, ports, acts, pos, fresh, c, mr) {
            Err(st) => {
                return st;
            },
            Ok((next, c1, mr1)) => {
                pos = next;
                c = c1;
                mr = mr1;
            },
        }
    }
    CopyoutStep::Done { mr }
}

/// `ipc_kmsg_copyout_body`: copy the rights the body of a message carries
/// out into the receiver's space (the `c`-th right offered the fresh name
/// `fresh[c]` should it need a new entry), and each out-of-line region
/// into the receiver's map, stopping at each region that needs the map.
/// The result gathers what went wrong: `MACH_MSG_IPC_SPACE` for a right
/// the space had no room for, `MACH_MSG_VM_SPACE` or `MACH_MSG_VM_KERNEL`
/// for a region that could not be mapped.
pub fn ipc_kmsg_copyout_body(
    kmsg: &mut ipc_kmsg,
    space: &mut ipc_space,
    ports: &mut Vec<ipc_port>,
    acts: &mut Vec<IpcAction>,
    fresh: &Vec<u32>,
) -> (r: CopyoutStep)
    requires
        old(kmsg).ikm_body.len() < 0x4000_0000,
        body_out(kst(old(kmsg), old(space), old(ports), old(acts)), old(space).is_active, old(space).is_id, 0,
            old(kmsg).ikm_body.len() as int, fresh@, 0, MACH_MSG_SUCCESS).2,
    ensures
        ({
            let b = body_out(kst(old(kmsg), old(space), old(ports), old(acts)), old(space).is_active, old(space).is_id, 0,
                old(kmsg).ikm_body.len() as int, fresh@, 0, MACH_MSG_SUCCESS);
            r == b.0 && kst(final(kmsg), final(space), final(ports), final(acts)) == b.1
        }),
        final(space).is_active == old(space).is_active,
        final(space).is_id == old(space).is_id,
{
    body_out_exec(kmsg, space, ports, acts, 0, fresh, 0, MACH_MSG_SUCCESS)
}

/// `ipc_kmsg_copyout_body`, resumed at the out-of-line item at word `pos`
/// with what the receiver's map made of it (see `body_out_resume`);
/// `used` and `mr` are those the stop reported.
pub fn ipc_kmsg_copyout_body_resume(
    kmsg: &mut ipc_kmsg,
    space: &mut ipc_space,
    ports: &mut Vec<ipc_port>,
    acts: &mut Vec<IpcAction>,
    pos: usize,
    fresh: &Vec<u32>,
    used: usize,
    mr: mach_msg_return_t,
    res: Result<u32, kern_return_t>,
) -> (r: CopyoutStep)
    requires
        old(kmsg).ikm_body.len() < 0x4000_0000,
        desc_fits(old(kmsg).ikm_body@, pos as int),
        pos + desc_at(old(kmsg).ikm_body@, pos as int).hwords < old(kmsg).ikm_body.len(),
        ({
            let d = desc_at(old(kmsg).ikm_body@, pos as int);
            let x = old(kmsg).ikm_body@[pos + d.hwords];
            is_port_right(d.name) && res is Ok ==> x < old(kmsg).ikm_ool_ports.len()
                && d.number <= old(kmsg).ikm_ool_ports[x as int].len()
        }),
        body_out_resume(kst(old(kmsg), old(space), old(ports), old(acts)), old(space).is_active, old(space).is_id, pos as int,
            old(kmsg).ikm_body.len() as int, fresh@, used as int, mr, res).2,
    ensures
        ({
            let b = body_out_resume(kst(old(kmsg), old(space), old(ports), old(acts)), old(space).is_active,
                old(space).is_id, pos as int, old(kmsg).ikm_body.len() as int, fresh@, used as int, mr, res);
            r == b.0 && kst(final(kmsg), final(space), final(ports), final(acts)) == b.1
        }),
        final(space).is_active == old(space).is_active,
        final(space).is_id == old(space).is_id,
{
    let d = read_desc(&kmsg.ikm_body, pos);
    let dp = pos + d.hwords as usize;
    let port = carries_rights(d.name);
    match res {
        Ok(addr) => {
            let mut c1 = used;
            let mut mr1 = mr;
            if port {
                let base = kmsg.ikm_body[dp] as usize;
                let (cc, mm) = names_out_exec(kmsg, space, ports, acts, d.name, false, base, d.number, fresh, used, mr);
                c1 = cc;
                mr1 = mm;
            }
            let x = kmsg.ikm_body[pos];
            kmsg.ikm_body.set(pos, x | 0x4000_0000u32);
            kmsg.ikm_body.set(dp, addr);
            body_out_exec(kmsg, space, ports, acts, dp + 1, fresh, c1, mr1)
        },
        Err(kr) => {
            if port {
                ipc_kmsg_clean_body(space, ports, acts, &kmsg.ikm_body, &kmsg.ikm_ool_ports, pos, dp);
            } else {
                acts.push(IpcAction::DiscardCopy { copy: kmsg.ikm_body[dp] });
            }
            if d.longform {
                let y = kmsg.ikm_body[pos + 1];
                kmsg.ikm_body.set(pos + 1, y & 0xffffu32);
            } else {
                let y = kmsg.ikm_body[pos];
                kmsg.ikm_body.set(pos, y & !0xff00u32);
            }
            let x = kmsg.ikm_body[pos];
            kmsg.ikm_body.set(pos, x | 0x4000_0000u32);
            kmsg.ikm_body.set(dp, 0);
            let fail = if kr == KERN_RESOURCE_SHORTAGE { MACH_MSG_VM_KERNEL } else { MACH_MSG_VM_SPACE };
            body_out_exec(kmsg, space, ports, acts, dp + 1, fresh, used, mr | fail)
        },
    }
}

// ─── Whole messages ──────────────────────────────────────────────

/// `ipc_kmsg_copyin`: the header's rights copied in, then, for a complex
/// message, the body's.
pub open spec fn kmsg_copyin_spec(k: KState, active: bool, notify: u32) -> (BodyStep, KState, bool) {
    let h = k.hdr;
    let (mr, s1, bits, dest, reply) = copyin_header_spec(k.s, active, h.msgh_bits, h.msgh_remote_port, h.msgh_local_port, notify);
    let k1 = KState { hdr: mach_msg_header_t { msgh_bits: bits, msgh_remote_port: dest, msgh_local_port: reply, ..h }, s: s1, ..k };
    if mr != MACH_MSG_SUCCESS {
        (BodyStep::Done { mr }, k1, true)
    } else if bits & MACH_MSGH_BITS_COMPLEX == 0 {
        (BodyStep::Done { mr: MACH_MSG_SUCCESS }, k1, true)
    } else {
        let b = body_in(k1, active, dest, s1.ports[dest as int].kotype, 0, k.w.len() as int, false);
        (b.0, b.1, dest < s1.ports.len() && b.2)
    }
}

/// `ipc_kmsg_copyin`: copy in the rights a message carries from the
/// sender's space (`notify` names the port for a dead-name request of the
/// destination), stopping at out-of-line regions as
/// `ipc_kmsg_copyin_body` does.
pub fn ipc_kmsg_copyin(
    kmsg: &mut ipc_kmsg,
    space: &mut ipc_space,
    ports: &mut Vec<ipc_port>,
    acts: &mut Vec<IpcAction>,
    notify: mach_port_name_t,
) -> (r: BodyStep)
    requires
        old(kmsg).ikm_body.len() < 0x4000_0000,
        names_unique(*old(space)),
        copyin_header_ok(sst(*old(space), *old(ports), *old(acts)), old(space).is_active, old(kmsg).ikm_header.msgh_bits,
            old(kmsg).ikm_header.msgh_remote_port, old(kmsg).ikm_header.msgh_local_port, notify),
        kmsg_copyin_spec(kst(old(kmsg), old(space), old(ports), old(acts)), old(space).is_active, notify).2,
    ensures
        ({
            let b = kmsg_copyin_spec(kst(old(kmsg), old(space), old(ports), old(acts)), old(space).is_active, notify);
            r == b.0 && kst(final(kmsg), final(space), final(ports), final(acts)) == b.1
        }),
{
    let ghost k0 = kst(kmsg, space, ports, acts);
    let mr = ipc_kmsg_copyin_header(&mut kmsg.ikm_header, space, ports, acts, notify);
    proof {
        let h = k0.hdr;
        let (mr0, s1, bits, dest, reply) = copyin_header_spec(k0.s, old(space).is_active, h.msgh_bits, h.msgh_remote_port,
            h.msgh_local_port, notify);
        assert(kmsg.ikm_header == (mach_msg_header_t { msgh_bits: bits, msgh_remote_port: dest, msgh_local_port: reply, ..h }));
        assert(kst(kmsg, space, ports, acts) =~= KState {
            hdr: mach_msg_header_t { msgh_bits: bits, msgh_remote_port: dest, msgh_local_port: reply, ..h }, s: s1, ..k0 });
    }
    if mr != MACH_MSG_SUCCESS {
        return BodyStep::Done { mr };
    }
    if kmsg.ikm_header.msgh_bits & MACH_MSGH_BITS_COMPLEX == 0 {
        return BodyStep::Done { mr: MACH_MSG_SUCCESS };
    }
    assert(kmsg.ikm_header.msgh_remote_port < ports.len());
    ipc_kmsg_copyin_body(kmsg, space, ports, acts)
}

/// `ipc_kmsg_copyout`: the header's rights copied out into the
/// receiver's space, then, for a complex message, the body's.  A body
/// whose copy-out went wrong adds `MACH_RCV_BODY_ERROR` to its result
/// (for a copy-out that stops at an out-of-line region, the caller adds
/// it to the final result).
pub open spec fn kmsg_copyout_spec(k: KState, active: bool, id: u32, sizes: Seq<u32>, fresh: u32, fresh_body: Seq<u32>,
    notify: u32) -> (CopyoutStep, KState, bool)
{
    let h = k.hdr;
    let (mr, s1, bits, remote, local) = copyout_header_spec(k.s, active, id, sizes, fresh, h.msgh_bits, h.msgh_remote_port,
        h.msgh_local_port, notify);
    let k1 = KState { hdr: mach_msg_header_t { msgh_bits: bits, msgh_remote_port: remote, msgh_local_port: local, ..h }, s: s1, ..k };
    if mr != MACH_MSG_SUCCESS {
        (CopyoutStep::Done { mr }, k1, true)
    } else if h.msgh_bits & MACH_MSGH_BITS_COMPLEX == 0 {
        (CopyoutStep::Done { mr: MACH_MSG_SUCCESS }, k1, true)
    } else {
        let b = body_out(k1, active, id, 0, k.w.len() as int, fresh_body, 0, MACH_MSG_SUCCESS);
        (
            match b.0 {
                CopyoutStep::Done { mr } => CopyoutStep::Done { mr: if mr != MACH_MSG_SUCCESS { mr | MACH_RCV_BODY_ERROR } else { mr } },
                step => step,
            },
            b.1,
            b.2,
        )
    }
}

/// `ipc_kmsg_copyout`: copy the rights a received message carries out
/// into the receiver's space (`fresh` is offered for a new entry of the
/// header's rights, `fresh_body` for those of the body's; `notify` names
/// the port for a dead-name request of the reply).
pub fn ipc_kmsg_copyout(
    kmsg: &mut ipc_kmsg,
    space: &mut ipc_space,
    ports: &mut Vec<ipc_port>,
    acts: &mut Vec<IpcAction>,
    sizes: &Vec<u32>,
    fresh: mach_port_name_t,
    fresh_body: &Vec<u32>,
    notify: mach_port_name_t,
) -> (r: CopyoutStep)
    requires
        old(kmsg).ikm_body.len() < 0x4000_0000,
        copyout_header_ok(*old(space), pv(*old(ports)), old(acts)@, sizes@, fresh, old(kmsg).ikm_header.msgh_bits,
            old(kmsg).ikm_header.msgh_remote_port, old(kmsg).ikm_header.msgh_local_port, notify),
        kmsg_copyout_spec(kst(old(kmsg), old(space), old(ports), old(acts)), old(space).is_active, old(space).is_id, sizes@,
            fresh, fresh_body@, notify).2,
    ensures
        ({
            let b = kmsg_copyout_spec(kst(old(kmsg), old(space), old(ports), old(acts)), old(space).is_active,
                old(space).is_id, sizes@, fresh, fresh_body@, notify);
            r == b.0 && kst(final(kmsg), final(space), final(ports), final(acts)) == b.1
        }),
{
    let ghost k0 = kst(kmsg, space, ports, acts);
    let mbits = kmsg.ikm_header.msgh_bits;
    let mr = ipc_kmsg_copyout_header(&mut kmsg.ikm_header, space, ports, acts, sizes, fresh, notify);
    proof {
        let h = k0.hdr;
        let (mr0, s1, bits, remote, local) = copyout_header_spec(k0.s, old(space).is_active, old(space).is_id, sizes@, fresh,
            h.msgh_bits, h.msgh_remote_port, h.msgh_local_port, notify);
        assert(kmsg.ikm_header == (mach_msg_header_t { msgh_bits: bits, msgh_remote_port: remote, msgh_local_port: local, ..h }));
        assert(kst(kmsg, space, ports, acts) =~= KState {
            hdr: mach_msg_header_t { msgh_bits: bits, msgh_remote_port: remote, msgh_local_port: local, ..h }, s: s1, ..k0 });
    }
    if mr != MACH_MSG_SUCCESS {
        return CopyoutStep::Done { mr };
    }
    if mbits & MACH_MSGH_BITS_COMPLEX == 0 {
        return CopyoutStep::Done { mr: MACH_MSG_SUCCESS };
    }
    match ipc_kmsg_copyout_body(kmsg, space, ports, acts, fresh_body) {
        CopyoutStep::Done { mr } => CopyoutStep::Done { mr: if mr != MACH_MSG_SUCCESS { mr | MACH_RCV_BODY_ERROR } else { mr } },
        step => step,
    }
}

/// `ipc_kmsg_copyout_dest`: a message that cannot be received normally
/// (its receive failed) handed back with its destination copied out as
/// the local port (dead when the port died), its reply right destroyed,
/// the header's port types swapped, and for a complex message the body
/// cleaned; with whether each step could be taken.
pub open spec fn copyout_dest_msg_spec(k: KState, id: u32) -> (KState, bool) {
    let h = k.hdr;
    let mbits = h.msgh_bits;
    let dest = h.msgh_remote_port;
    let reply = h.msgh_local_port;
    let dt = mbits & 0xff;
    let rt = (mbits & 0xff00) >> 8u32;
    let live = k.s.ports[dest as int].active;
    let (dest_name, s1) = if live { copyout_dest_spec(k.s, id, dest, dt) } else { (MACH_PORT_NAME_DEAD, srel(k.s, dest)) };
    let ok1 = if live { dest_ok(k.s.ports, dest, dt) } else { k.s.ports[dest as int].references > 0 };
    let (reply_name, s2) = if io_valid(reply) { (MACH_PORT_NAME_NULL, destroy_spec(s1, reply, rt)) } else { (reply, s1) };
    let ok2 = io_valid(reply) ==> destroy_ok(s1.ports, reply, rt);
    let complex = mbits & MACH_MSGH_BITS_COMPLEX != 0;
    let s3 = if complex { clean_items(s2, k.w, k.ool, 0, k.w.len() as int) } else { s2 };
    let ok3 = complex ==> clean_items_ok(s2, k.w, k.ool, 0, k.w.len() as int);
    (
        KState {
            hdr: mach_msg_header_t {
                msgh_bits: (mbits & !0xffffu32) | (rt | (dt << 8u32)),
                msgh_remote_port: reply_name,
                msgh_local_port: dest_name,
                ..h
            },
            s: s3,
            ..k
        },
        io_valid(dest) && 0 < dest < k.s.ports.len() && ok1 && ok2 && ok3,
    )
}

/// `ipc_kmsg_copyout_dest`.
pub fn ipc_kmsg_copyout_dest(kmsg: &mut ipc_kmsg, space: &ipc_space, ports: &mut Vec<ipc_port>, acts: &mut Vec<IpcAction>)
    requires
        old(kmsg).ikm_body.len() < 0x4000_0000,
        copyout_dest_msg_spec(kst(old(kmsg), space, old(ports), old(acts)), space.is_id).1,
    ensures
        kst(final(kmsg), space, final(ports), final(acts)) == copyout_dest_msg_spec(kst(old(kmsg), space, old(ports), old(acts)),
            space.is_id).0,
{
    let ghost k0 = kst(kmsg, space, ports, acts);
    let mbits = kmsg.ikm_header.msgh_bits;
    let dest = kmsg.ikm_header.msgh_remote_port;
    let reply = kmsg.ikm_header.msgh_local_port;
    let dt = mbits & 0xff;
    let rt = MACH_MSGH_BITS_LOCAL(mbits);
    let dest_name = if ports[dest as usize].ip_active {
        assert(ports[dest as int]@ == pv(*ports)[dest as int]);
        ipc_object_copyout_dest(space, ports, acts, dest, dt)
    } else {
        assert(ports[dest as int]@ == pv(*ports)[dest as int]);
        crate::ipc_kmsg::port_release(ports, dest, acts);
        assert(sst(*space, *ports, *acts) == srel(k0.s, dest));
        MACH_PORT_NAME_DEAD
    };
    let reply_name = if reply != IO_NULL && reply != IO_DEAD {
        ipc_object_destroy(space, ports, acts, reply, rt);
        MACH_PORT_NAME_NULL
    } else {
        reply
    };
    kmsg.ikm_header.msgh_bits = (mbits & !0xffffu32) | (rt | (dt << 8u32));
    kmsg.ikm_header.msgh_local_port = dest_name;
    kmsg.ikm_header.msgh_remote_port = reply_name;
    if mbits & MACH_MSGH_BITS_COMPLEX != 0 {
        ipc_kmsg_clean_body(space, ports, acts, &kmsg.ikm_body, &kmsg.ikm_ool_ports, 0, kmsg.ikm_body.len());
    }
    proof {
        let want = copyout_dest_msg_spec(k0, space.is_id).0;
        assert(kst(kmsg, space, ports, acts).hdr == want.hdr);
        assert(kst(kmsg, space, ports, acts) =~= want);
    }
}

// ─── Messages the kernel sends ───────────────────────────────────

/// `ipc_object_copyin_from_kernel`: the ports once the kernel puts a right
/// of kind `msgt` to port `p` into a message: its receive right (the port
/// leaves the kernel's space, restarting its make-send count), a copied,
/// made or moved send right, or a made or moved send-once right.
pub open spec fn kernel_copyin_spec(ports: Seq<PortModel>, p: u32, msgt: u32) -> Seq<PortModel> {
    let q = ports[p as int];
    if msgt == MACH_MSG_TYPE_MOVE_RECEIVE {
        ports.update(p as int, PortModel { mscount: 0, receiver_name: 0, receiver: 0, destination: 0, protected_payload: false, ..q })
    } else if msgt == MACH_MSG_TYPE_COPY_SEND {
        ports.update(p as int, PortModel {
            srights: if q.active { (q.srights + 1) as u32 } else { q.srights },
            references: (q.references + 1) as u32,
            ..q
        })
    } else if msgt == MACH_MSG_TYPE_MAKE_SEND {
        ports.update(p as int, PortModel {
            references: (q.references + 1) as u32,
            mscount: (q.mscount + 1) as u32,
            srights: (q.srights + 1) as u32,
            ..q
        })
    } else if msgt == MACH_MSG_TYPE_MAKE_SEND_ONCE {
        ports.update(p as int, PortModel { references: (q.references + 1) as u32, sorights: (q.sorights + 1) as u32, ..q })
    } else {
        ports
    }
}

/// What `ipc_object_copyin_from_kernel` relies on: a port, a kind of
/// right, a receive right or one made from it held by the kernel's space
/// under a name, a copied send right to a live port that has send rights,
/// and room in the counters.
pub open spec fn kernel_copyin_ok(ports: Seq<PortModel>, p: u32, msgt: u32, kernel_space: u32) -> bool {
    let q = ports[p as int];
    &&& 0 < p < ports.len()
    &&& MACH_MSG_TYPE_MOVE_RECEIVE <= msgt <= MACH_MSG_TYPE_MAKE_SEND_ONCE
    &&& (msgt == MACH_MSG_TYPE_MOVE_RECEIVE || msgt == MACH_MSG_TYPE_MAKE_SEND || msgt == MACH_MSG_TYPE_MAKE_SEND_ONCE)
        ==> q.active && q.receiver_name != MACH_PORT_NAME_NULL && q.receiver == kernel_space
    &&& msgt == MACH_MSG_TYPE_COPY_SEND && q.active ==> q.srights > 0
    &&& q.references < u32::MAX && q.srights < u32::MAX && q.sorights < u32::MAX && q.mscount < u32::MAX
}

/// `ipc_object_copyin_from_kernel`.
pub fn ipc_object_copyin_from_kernel(ports: &mut Vec<ipc_port>, p: u32, msgt_name: mach_msg_type_name_t, kernel_space: u32)
    requires
        kernel_copyin_ok(pv(*old(ports)), p, msgt_name, kernel_space),
    ensures
        pv(*final(ports)) == kernel_copyin_spec(pv(*old(ports)), p, msgt_name),
{
    let m = get_port(ports, p);
    if msgt_name == MACH_MSG_TYPE_MOVE_RECEIVE {
        set_port(ports, p, PortScalars { mscount: 0, receiver_name: 0, receiver: 0, destination: 0, protected_payload: false, ..m });
    } else if msgt_name == MACH_MSG_TYPE_COPY_SEND {
        let srights = if m.active { m.srights + 1 } else { m.srights };
        set_port(ports, p, PortScalars { srights, references: m.references + 1, ..m });
    } else if msgt_name == MACH_MSG_TYPE_MAKE_SEND {
        set_port(ports, p, PortScalars { references: m.references + 1, mscount: m.mscount + 1, srights: m.srights + 1, ..m });
    } else if msgt_name == MACH_MSG_TYPE_MAKE_SEND_ONCE {
        set_port(ports, p, PortScalars { references: m.references + 1, sorights: m.sorights + 1, ..m });
    }
    proof {
        assert(pv(*ports) =~= kernel_copyin_spec(pv(*old(ports)), p, msgt_name));
    }
}

/// The rights in slots `i..number` of an item of a kernel message put in,
/// in order; a receive right headed for `dest` may close a loop of ports
/// in transit, which marks the message circular.  Returns the state and
/// whether each step could be taken.
pub open spec fn kernel_names(k: KState, kernel_space: u32, dest: u32, msgt: u32, inline: bool, base: int, i: int, number: int)
    -> (KState, bool)
    decreases number - i,
{
    if i >= number {
        (k, true)
    } else {
        let o = slot(k, inline, base, i);
        if !io_valid(o) {
            kernel_names(k, kernel_space, dest, msgt, inline, base, i + 1, number)
        } else {
            let ok1 = kernel_copyin_ok(k.s.ports, o, msgt, kernel_space);
            let p1 = kernel_copyin_spec(k.s.ports, o, msgt);
            let receive = copyin_type_spec(msgt) == MACH_MSG_TYPE_PORT_RECEIVE;
            let ok2 = receive ==> {
                &&& chain_in_range(p1, dest, p1.len())
                &&& chain_base(p1, dest, p1.len()) is Some
                &&& p1[dest as int].references < u32::MAX
            };
            let k1 = KState { s: SState { ports: p1, ..k.s }, ..k };
            let k2 = if !receive {
                k1
            } else if circular(p1, o, dest) {
                KState { hdr: mach_msg_header_t { msgh_bits: k.hdr.msgh_bits | MACH_MSGH_BITS_CIRCULAR, ..k.hdr }, ..k1 }
            } else {
                KState { s: SState { ports: linked(p1, o, dest), ..k.s }, ..k1 }
            };
            let r = kernel_names(k2, kernel_space, dest, msgt, inline, base, i + 1, number);
            (r.0, ok1 && ok2 && r.1)
        }
    }
}

/// The items of a kernel message from `pos` to `end` put in: each port
/// item's descriptor names the type its rights have in the message, and
/// its rights (inline, or in the out-of-line array the item's word
/// indexes) are put in.  Returns the state and whether each step could be
/// taken.
pub open spec fn kernel_body(k: KState, kernel_space: u32, dest: u32, pos: int, end: int) -> (KState, bool)
    decreases (if pos < end { end - pos } else { 0 }),
{
    if pos >= end {
        (k, true)
    } else {
        let d = desc_at(k.w, pos);
        let dp = pos + d.hwords;
        let port = is_port_right(d.name);
        let ok0 = {
            &&& desc_fits(k.w, pos)
            &&& d.number * d.size + 7 < 0x1_0000_0000
            &&& !d.inline ==> dp < k.w.len()
            &&& port && d.inline ==> dp + d.number <= k.w.len()
            &&& port && !d.inline ==> k.w[dp] < k.ool.len() && d.number <= k.ool[k.w[dp] as int].len()
        };
        let next = dp + data_words(d);
        let (k2, okn) = if port {
            kernel_names(KState { w: renamed(k.w, pos, d), ..k }, kernel_space, dest, d.name, d.inline,
                if d.inline { dp } else { k.w[dp] as int }, 0, d.number as int)
        } else {
            (k, true)
        };
        proof { lemma_next_item(k.w, pos); }
        let r = kernel_body(k2, kernel_space, dest, next, end);
        (r.0, ok0 && okn && r.1)
    }
}

/// `ipc_kmsg_copyin_from_kernel`: the header's rights put in (a complex
/// message carrying a copied send right and no reply keeps its bits with
/// the send right's type), then, for a complex message, the body's.
pub open spec fn kmsg_copyin_from_kernel_spec(k: KState, kernel_space: u32) -> (KState, bool) {
    let h = k.hdr;
    let bits = h.msgh_bits;
    let rname = bits & 0xff;
    let lname = (bits & 0xff00) >> 8u32;
    let remote = h.msgh_remote_port;
    let local = h.msgh_local_port;
    let p1 = kernel_copyin_spec(k.s.ports, remote, rname);
    let p2 = if io_valid(local) { kernel_copyin_spec(p1, local, lname) } else { p1 };
    let ok = io_valid(remote) && kernel_copyin_ok(k.s.ports, remote, rname, kernel_space)
        && (io_valid(local) ==> kernel_copyin_ok(p1, local, lname, kernel_space));
    let nbits = if bits == (MACH_MSGH_BITS_COMPLEX | MACH_MSG_TYPE_COPY_SEND) {
        MACH_MSGH_BITS_COMPLEX | MACH_MSG_TYPE_PORT_SEND
    } else {
        (bits & !0xffffu32) | (copyin_type_spec(rname) | (copyin_type_spec(lname) << 8u32))
    };
    let k1 = KState { hdr: mach_msg_header_t { msgh_bits: nbits, ..h }, s: SState { ports: p2, ..k.s }, ..k };
    if nbits & MACH_MSGH_BITS_COMPLEX == 0 {
        (k1, ok)
    } else {
        let r = kernel_body(k1, kernel_space, remote, 0, k.w.len() as int);
        (r.0, ok && r.1)
    }
}

/// Put in the rights in slots `0..number` of an item of a kernel message.
fn kernel_names_exec(
    kmsg: &mut ipc_kmsg,
    space: &ipc_space,
    ports: &mut Vec<ipc_port>,
    acts: &Vec<IpcAction>,
    kernel_space: u32,
    dest: u32,
    msgt: u32,
    inline: bool,
    base: usize,
    number: u32,
)
    requires
        inline ==> base + number <= old(kmsg).ikm_body.len(),
        !inline ==> base < old(kmsg).ikm_ool_ports.len() && number <= old(kmsg).ikm_ool_ports[base as int].len(),
        kernel_names(kst(old(kmsg), space, old(ports), acts), kernel_space, dest, msgt, inline, base as int, 0, number as int).1,
    ensures
        kst(final(kmsg), space, final(ports), acts)
            == kernel_names(kst(old(kmsg), space, old(ports), acts), kernel_space, dest, msgt, inline, base as int, 0,
                number as int).0,
        final(kmsg).ikm_body@ == old(kmsg).ikm_body@,
        final(kmsg).ikm_ool_ports.len() == old(kmsg).ikm_ool_ports.len(),
{
    let ghost r0 = kernel_names(kst(kmsg, space, ports, acts), kernel_space, dest, msgt, inline, base as int, 0, number as int);
    let mut i: u32 = 0;
    while i < number
        invariant
            i <= number,
            kmsg.ikm_body@ == old(kmsg).ikm_body@,
            kmsg.ikm_ool_ports@ == old(kmsg).ikm_ool_ports@,
            inline ==> base + number <= kmsg.ikm_body.len(),
            !inline ==> base < kmsg.ikm_ool_ports.len() && number <= kmsg.ikm_ool_ports[base as int].len(),
            r0 == kernel_names(kst(old(kmsg), space, old(ports), acts), kernel_space, dest, msgt, inline, base as int, 0,
                number as int),
            ({
                let r = kernel_names(kst(kmsg, space, ports, acts), kernel_space, dest, msgt, inline, base as int, i as int,
                    number as int);
                r.0 == r0.0 && r.1
            }),
        decreases number - i,
    {
        let ghost k = kst(kmsg, space, ports, acts);
        let o = if inline { kmsg.ikm_body[base + i as usize] } else { kmsg.ikm_ool_ports[base][i as usize] };
        assert(o == slot(k, inline, base as int, i as int));
        if o != IO_NULL && o != IO_DEAD {
            ipc_object_copyin_from_kernel(ports, o, msgt, kernel_space);
            if ipc_object_copyin_type(msgt) == MACH_MSG_TYPE_PORT_RECEIVE {
                assert(ports[dest as int]@ == pv(*ports)[dest as int]);
                let circ = ipc_port_check_circularity(ports, o, dest);
                if circ {
                    kmsg.ikm_header.msgh_bits = kmsg.ikm_header.msgh_bits | MACH_MSGH_BITS_CIRCULAR;
                }
            }
            proof {
                let p1 = kernel_copyin_spec(k.s.ports, o, msgt);
                let receive = copyin_type_spec(msgt) == MACH_MSG_TYPE_PORT_RECEIVE;
                let k1 = KState { s: SState { ports: p1, ..k.s }, ..k };
                let k2 = if !receive {
                    k1
                } else if circular(p1, o, dest) {
                    KState { hdr: mach_msg_header_t { msgh_bits: k.hdr.msgh_bits | MACH_MSGH_BITS_CIRCULAR, ..k.hdr }, ..k1 }
                } else {
                    KState { s: SState { ports: linked(p1, o, dest), ..k.s }, ..k1 }
                };
                assert(kst(kmsg, space, ports, acts).s =~= k2.s);
                assert(kst(kmsg, space, ports, acts) =~= k2);
            }
        }
        i = i + 1;
    }
}

/// Put in the items of a kernel message from `start` on.
fn kernel_body_exec(
    kmsg: &mut ipc_kmsg,
    space: &ipc_space,
    ports: &mut Vec<ipc_port>,
    acts: &Vec<IpcAction>,
    kernel_space: u32,
    dest: u32,
    start: usize,
)
    requires
        old(kmsg).ikm_body.len() < 0x4000_0000,
        kernel_body(kst(old(kmsg), space, old(ports), acts), kernel_space, dest, start as int, old(kmsg).ikm_body.len() as int).1,
    ensures
        kst(final(kmsg), space, final(ports), acts)
            == kernel_body(kst(old(kmsg), space, old(ports), acts), kernel_space, dest, start as int,
                old(kmsg).ikm_body.len() as int).0,
{
    let ghost end = kmsg.ikm_body.len() as int;
    let ghost r0 = kernel_body(kst(kmsg, space, ports, acts), kernel_space, dest, start as int, end);
    let mut pos = start;
    while pos < kmsg.ikm_body.len()
        invariant
            kmsg.ikm_body.len() == end,
            end < 0x4000_0000,
            r0 == kernel_body(kst(old(kmsg), space, old(ports), acts), kernel_space, dest, start as int,
                old(kmsg).ikm_body.len() as int),
            ({
                let r = kernel_body(kst(kmsg, space, ports, acts), kernel_space, dest, pos as int, end);
                r.0 == r0.0 && r.1
            }),
        decreases if pos < end { end - pos } else { 0 },
    {
        let d = read_desc(&kmsg.ikm_body, pos);
        let dp = pos + d.hwords as usize;
        let n = d.number as u64;
        let z = d.size as u64;
        assert(n * z < 0x1_0000_0000_0000) by (nonlinear_arith)
            requires
                n < 0x1_0000_0000,
                z < 0x1_0000,
        ;
        let length = ((n * z + 7) / 8) as u32;
        assert(length == data_len(d));
        let next = if d.inline { dp + ((length as u64 + 3) / 4) as usize } else { dp + 1 };
        proof { lemma_next_item(kmsg.ikm_body@, pos as int); }
        if carries_rights(d.name) {
            let base = if d.inline { dp } else { kmsg.ikm_body[dp] as usize };
            rename_desc(&mut kmsg.ikm_body, pos, d);
            kernel_names_exec(kmsg, space, ports, acts, kernel_space, dest, d.name, d.inline, base, d.number);
        }
        pos = next;
    }
}

/// `ipc_kmsg_copyin_from_kernel`: put the rights of a message the kernel
/// sends (ports, not names) into it, as `kmsg_copyin_from_kernel_spec`
/// says; `kernel_space` is the kernel's own space.
pub fn ipc_kmsg_copyin_from_kernel(kmsg: &mut ipc_kmsg, space: &ipc_space, ports: &mut Vec<ipc_port>, acts: &Vec<IpcAction>,
    kernel_space: u32)
    requires
        old(kmsg).ikm_body.len() < 0x4000_0000,
        kmsg_copyin_from_kernel_spec(kst(old(kmsg), space, old(ports), acts), kernel_space).1,
    ensures
        kst(final(kmsg), space, final(ports), acts) == kmsg_copyin_from_kernel_spec(kst(old(kmsg), space, old(ports), acts),
            kernel_space).0,
{
    let ghost k0 = kst(kmsg, space, ports, acts);
    let bits = kmsg.ikm_header.msgh_bits;
    let rname = bits & 0xff;
    let lname = MACH_MSGH_BITS_LOCAL(bits);
    let remote = kmsg.ikm_header.msgh_remote_port;
    let local = kmsg.ikm_header.msgh_local_port;
    ipc_object_copyin_from_kernel(ports, remote, rname, kernel_space);
    if local != IO_NULL && local != IO_DEAD {
        ipc_object_copyin_from_kernel(ports, local, lname, kernel_space);
    }
    let nbits = if bits == (MACH_MSGH_BITS_COMPLEX | MACH_MSG_TYPE_COPY_SEND) {
        MACH_MSGH_BITS_COMPLEX | MACH_MSG_TYPE_PORT_SEND
    } else {
        (bits & !0xffffu32) | (ipc_object_copyin_type(rname) | (ipc_object_copyin_type(lname) << 8u32))
    };
    kmsg.ikm_header.msgh_bits = nbits;
    proof {
        let h = k0.hdr;
        let p1 = kernel_copyin_spec(k0.s.ports, remote, rname);
        let p2 = if io_valid(local) { kernel_copyin_spec(p1, local, lname) } else { p1 };
        assert(kst(kmsg, space, ports, acts) =~= KState { hdr: mach_msg_header_t { msgh_bits: nbits, ..h },
            s: SState { ports: p2, ..k0.s }, ..k0 });
    }
    if nbits & MACH_MSGH_BITS_COMPLEX != 0 {
        kernel_body_exec(kmsg, space, ports, acts, kernel_space, remote, 0);
    }
}

/// `ipc_kmsg_copyout_pseudo`: the destination and reply rights copied out
/// as ordinary rights (`fresh_d`, `fresh_r` offered for new entries), the
/// circular bit dropped, then, for a complex message, the body copied
/// out; the results are gathered.
pub open spec fn kmsg_copyout_pseudo_spec(k: KState, active: bool, id: u32, fresh_d: u32, fresh_r: u32, fresh_body: Seq<u32>)
    -> (CopyoutStep, KState, bool)
{
    let h = k.hdr;
    let bits = h.msgh_bits;
    let dt = bits & 0xff;
    let rt = (bits & 0xff00) >> 8u32;
    let (m1, dn, s1) = kmsg_copyout_object_spec(k.s, active, id, h.msgh_remote_port, dt, fresh_d);
    let ok1 = slot_out_ok(k, id, active, h.msgh_remote_port, dt, fresh_d);
    let k1 = KState { s: s1, ..k };
    let (m2, rn, s2) = kmsg_copyout_object_spec(s1, active, id, h.msgh_local_port, rt, fresh_r);
    let ok2 = slot_out_ok(k1, id, active, h.msgh_local_port, rt, fresh_r);
    let k2 = KState {
        hdr: mach_msg_header_t { msgh_bits: bits & !MACH_MSGH_BITS_CIRCULAR, msgh_remote_port: dn, msgh_local_port: rn, ..h },
        s: s2,
        ..k
    };
    if bits & MACH_MSGH_BITS_COMPLEX != 0 {
        let b = body_out(k2, active, id, 0, k.w.len() as int, fresh_body, 0, m1 | m2);
        (b.0, b.1, ok1 && ok2 && b.2)
    } else {
        (CopyoutStep::Done { mr: m1 | m2 }, k2, ok1 && ok2)
    }
}

/// `ipc_kmsg_copyout_pseudo`.
pub fn ipc_kmsg_copyout_pseudo(
    kmsg: &mut ipc_kmsg,
    space: &mut ipc_space,
    ports: &mut Vec<ipc_port>,
    acts: &mut Vec<IpcAction>,
    fresh_d: mach_port_name_t,
    fresh_r: mach_port_name_t,
    fresh_body: &Vec<u32>,
) -> (r: CopyoutStep)
    requires
        old(kmsg).ikm_body.len() < 0x4000_0000,
        kmsg_copyout_pseudo_spec(kst(old(kmsg), old(space), old(ports), old(acts)), old(space).is_active, old(space).is_id,
            fresh_d, fresh_r, fresh_body@).2,
    ensures
        ({
            let b = kmsg_copyout_pseudo_spec(kst(old(kmsg), old(space), old(ports), old(acts)), old(space).is_active,
                old(space).is_id, fresh_d, fresh_r, fresh_body@);
            r == b.0 && kst(final(kmsg), final(space), final(ports), final(acts)) == b.1
        }),
{
    let ghost k0 = kst(kmsg, space, ports, acts);
    let bits = kmsg.ikm_header.msgh_bits;
    let dt = bits & 0xff;
    let rt = MACH_MSGH_BITS_LOCAL(bits);
    let dest = kmsg.ikm_header.msgh_remote_port;
    let reply = kmsg.ikm_header.msgh_local_port;
    assert(kmsg_copyout_object_ok(*space, pv(*ports), dest, dt, fresh_d));
    let (m1, dn) = ipc_kmsg_copyout_object(space, ports, acts, dest, dt, fresh_d);
    proof {
        let s1 = kmsg_copyout_object_spec(k0.s, old(space).is_active, old(space).is_id, dest, dt, fresh_d).2;
        assert(sst(*space, *ports, *acts) == s1);
        assert(pv(*ports) == s1.ports);
        assert(space.is_entries@ == s1.entries);
        let k1 = KState { s: s1, ..k0 };
        assert(slot_out_ok(k1, old(space).is_id, old(space).is_active, reply, rt, fresh_r));
        assert(kmsg_copyout_object_ok(*space, k1.s.ports, reply, rt, fresh_r));
    }
    assert(kmsg_copyout_object_ok(*space, pv(*ports), reply, rt, fresh_r));
    let (m2, rn) = ipc_kmsg_copyout_object(space, ports, acts, reply, rt, fresh_r);
    kmsg.ikm_header.msgh_bits = bits & !MACH_MSGH_BITS_CIRCULAR;
    kmsg.ikm_header.msgh_remote_port = dn;
    kmsg.ikm_header.msgh_local_port = rn;
    proof {
        let h = k0.hdr;
        let (mm1, dn1, s1) = kmsg_copyout_object_spec(k0.s, old(space).is_active, old(space).is_id, dest, dt, fresh_d);
        let (mm2, rn1, s2) = kmsg_copyout_object_spec(s1, old(space).is_active, old(space).is_id, reply, rt, fresh_r);
        assert(kst(kmsg, space, ports, acts) =~= KState {
            hdr: mach_msg_header_t { msgh_bits: bits & !MACH_MSGH_BITS_CIRCULAR, msgh_remote_port: dn1, msgh_local_port: rn1, ..h },
            s: s2,
            ..k0
        });
    }
    if bits & MACH_MSGH_BITS_COMPLEX != 0 {
        body_out_exec(kmsg, space, ports, acts, 0, fresh_body, 0, m1 | m2)
    } else {
        CopyoutStep::Done { mr: m1 | m2 }
    }
}

} // verus!
