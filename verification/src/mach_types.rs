//! Mach kernel types and constants shared by the IPC subsystem, and the
//! bit-packing helpers of message headers, type descriptors and port types.

use vstd::prelude::*;

verus! {

pub type natural_t = u32;
pub type integer_t = i32;
pub type mach_port_name_t = u32;
pub type mach_port_t = u32;
pub type mach_port_seqno_t = u32;
pub type kern_return_t = i32;
pub type mach_msg_return_t = i32;
pub type mach_msg_size_t = u32;
pub type mach_msg_option_t = i32;
pub type mach_msg_timeout_t = u32;
pub type boolean_t = i32;
pub type vm_offset_t = u32;
pub type vm_size_t = u32;
pub type mach_msg_bits_t = u32;
pub type mach_msg_id_t = i32;
pub type mach_msg_type_name_t = u32;
pub type mach_msg_type_size_t = u32;
pub type mach_msg_type_number_t = u32;
pub type mach_port_right_t = u32;
pub type mach_port_type_t = u32;
pub type mach_port_urefs_t = u32;
pub type mach_port_delta_t = i32;
pub type mach_port_mscount_t = u32;
pub type mach_port_msgcount_t = u32;
pub type mach_port_rights_t = u32;
pub type ipc_entry_bits_t = u32;
pub type ipc_object_refs_t = u32;
pub type ipc_object_bits_t = u32;
pub type ipc_table_elems_t = u32;
pub type ipc_table_index_t = u32;
pub type ipc_entry_num_t = u32;
pub type ipc_port_timestamp_t = u32;
pub type rdxtree_key_t = u32;

pub const PAGE_SHIFT: u32 = 12;
pub const PAGE_SIZE: vm_size_t = 4096;

// ─── Kernel return codes ─────────────────────────────────────────

pub const KERN_SUCCESS: kern_return_t = 0;
pub const KERN_NO_SPACE: kern_return_t = 3;
pub const KERN_INVALID_ARGUMENT: kern_return_t = 4;
pub const KERN_FAILURE: kern_return_t = 5;
pub const KERN_RESOURCE_SHORTAGE: kern_return_t = 6;
pub const KERN_NOT_IN_SET: kern_return_t = 12;
pub const KERN_NAME_EXISTS: kern_return_t = 13;
pub const KERN_INVALID_NAME: kern_return_t = 15;
pub const KERN_INVALID_TASK: kern_return_t = 16;
pub const KERN_INVALID_RIGHT: kern_return_t = 17;
pub const KERN_INVALID_VALUE: kern_return_t = 18;
pub const KERN_UREFS_OVERFLOW: kern_return_t = 19;
pub const KERN_INVALID_CAPABILITY: kern_return_t = 20;
pub const KERN_RIGHT_EXISTS: kern_return_t = 21;
pub const KERN_INVALID_HOST: kern_return_t = 22;

// ─── Message header bits and type names ─────────────────────────

pub const MACH_MSGH_BITS_COMPLEX: u32 = 0x8000_0000;
pub const MACH_MSGH_BITS_CIRCULAR: u32 = 0x4000_0000;
pub const MACH_MSGH_BITS_REMOTE_MASK: u32 = 0x0000_00ff;
pub const MACH_MSGH_BITS_LOCAL_MASK: u32 = 0x0000_ff00;
pub const MACH_MSGH_BITS_PORTS_MASK: u32 = 0x0000_ffff;

pub const MACH_MSG_TYPE_INTEGER_32: u32 = 2;
pub const MACH_MSG_TYPE_PORT_NAME: u32 = 15;
pub const MACH_MSG_TYPE_MOVE_RECEIVE: u32 = 16;
pub const MACH_MSG_TYPE_MOVE_SEND: u32 = 17;
pub const MACH_MSG_TYPE_MOVE_SEND_ONCE: u32 = 18;
pub const MACH_MSG_TYPE_COPY_SEND: u32 = 19;
pub const MACH_MSG_TYPE_MAKE_SEND: u32 = 20;
pub const MACH_MSG_TYPE_MAKE_SEND_ONCE: u32 = 21;
pub const MACH_MSG_TYPE_PROTECTED_PAYLOAD: u32 = 23;
pub const MACH_MSG_TYPE_PORT_RECEIVE: u32 = 16;
pub const MACH_MSG_TYPE_PORT_SEND: u32 = 17;
pub const MACH_MSG_TYPE_PORT_SEND_ONCE: u32 = 18;

pub const MACH_PORT_NULL: u32 = 0;
pub const MACH_PORT_NAME_NULL: mach_port_name_t = 0;
pub const MACH_PORT_NAME_DEAD: mach_port_name_t = 0xFFFF_FFFF;

pub const MACH_MSG_SUCCESS: mach_msg_return_t = 0x0000_0000;
pub const MACH_SEND_IN_PROGRESS: mach_msg_return_t = 0x1000_0001;
pub const MACH_SEND_INVALID_DATA: mach_msg_return_t = 0x1000_0002;
pub const MACH_SEND_INVALID_DEST: mach_msg_return_t = 0x1000_0003;
pub const MACH_SEND_TIMED_OUT: mach_msg_return_t = 0x1000_0004;
pub const MACH_SEND_WILL_NOTIFY: mach_msg_return_t = 0x1000_0005;
pub const MACH_SEND_NOTIFY_IN_PROGRESS: mach_msg_return_t = 0x1000_0006;
pub const MACH_SEND_INTERRUPTED: mach_msg_return_t = 0x1000_0007;
pub const MACH_SEND_MSG_TOO_SMALL: mach_msg_return_t = 0x1000_0008;
pub const MACH_SEND_INVALID_REPLY: mach_msg_return_t = 0x1000_0009;
pub const MACH_SEND_INVALID_RIGHT: mach_msg_return_t = 0x1000_000a;
pub const MACH_SEND_INVALID_NOTIFY: mach_msg_return_t = 0x1000_000b;
pub const MACH_SEND_INVALID_MEMORY: mach_msg_return_t = 0x1000_000c;
pub const MACH_SEND_NO_BUFFER: mach_msg_return_t = 0x1000_000d;
pub const MACH_SEND_NO_NOTIFY: mach_msg_return_t = 0x1000_000e;
pub const MACH_SEND_INVALID_TYPE: mach_msg_return_t = 0x1000_000f;
pub const MACH_SEND_INVALID_HEADER: mach_msg_return_t = 0x1000_0010;
pub const MACH_RCV_IN_PROGRESS: mach_msg_return_t = 0x1000_4001;
pub const MACH_RCV_INVALID_NAME: mach_msg_return_t = 0x1000_4002;
pub const MACH_RCV_TIMED_OUT: mach_msg_return_t = 0x1000_4003;
pub const MACH_RCV_TOO_LARGE: mach_msg_return_t = 0x1000_4004;
pub const MACH_RCV_INTERRUPTED: mach_msg_return_t = 0x1000_4005;
pub const MACH_RCV_PORT_CHANGED: mach_msg_return_t = 0x1000_4006;
pub const MACH_RCV_INVALID_NOTIFY: mach_msg_return_t = 0x1000_4007;
pub const MACH_RCV_INVALID_DATA: mach_msg_return_t = 0x1000_4008;
pub const MACH_RCV_PORT_DIED: mach_msg_return_t = 0x1000_4009;
pub const MACH_RCV_IN_SET: mach_msg_return_t = 0x1000_400a;
pub const MACH_RCV_HEADER_ERROR: mach_msg_return_t = 0x1000_400b;
pub const MACH_RCV_BODY_ERROR: mach_msg_return_t = 0x1000_400c;
/// Added to a receive error: the receiver's space ran out of room.
pub const MACH_MSG_IPC_SPACE: mach_msg_return_t = 0x0000_2000;
/// Added to a receive error: the kernel ran out of resources.
pub const MACH_MSG_IPC_KERNEL: mach_msg_return_t = 0x0000_0800;
pub const MACH_MSG_VM_SPACE: mach_msg_return_t = 0x0000_1000;
pub const MACH_MSG_VM_KERNEL: mach_msg_return_t = 0x0000_0400;

pub const MACH_MSG_KERNEL_ALIGNMENT: u32 = 4;

// ─── Port rights and types ───────────────────────────────────────

pub const MACH_PORT_RIGHT_SEND: u32 = 0;
pub const MACH_PORT_RIGHT_RECEIVE: u32 = 1;
pub const MACH_PORT_RIGHT_SEND_ONCE: u32 = 2;
pub const MACH_PORT_RIGHT_PORT_SET: u32 = 3;
pub const MACH_PORT_RIGHT_DEAD_NAME: u32 = 4;
pub const MACH_PORT_RIGHT_NUMBER: u32 = 5;

pub const MACH_PORT_TYPE_NONE: u32 = 0;
pub const MACH_PORT_TYPE_SEND: u32 = 0x0001_0000;
pub const MACH_PORT_TYPE_RECEIVE: u32 = 0x0002_0000;
pub const MACH_PORT_TYPE_SEND_ONCE: u32 = 0x0004_0000;
pub const MACH_PORT_TYPE_PORT_SET: u32 = 0x0008_0000;
pub const MACH_PORT_TYPE_DEAD_NAME: u32 = 0x0010_0000;
pub const MACH_PORT_TYPE_SEND_RECEIVE: u32 = 0x0003_0000;
pub const MACH_PORT_TYPE_SEND_RIGHTS: u32 = 0x0005_0000;
pub const MACH_PORT_TYPE_PORT_RIGHTS: u32 = 0x0007_0000;
pub const MACH_PORT_TYPE_PORT_OR_DEAD: u32 = 0x0017_0000;
pub const MACH_PORT_TYPE_ALL_RIGHTS: u32 = 0x001f_0000;
pub const MACH_PORT_TYPE_DNREQUEST: u32 = 0x8000_0000;
pub const MACH_PORT_TYPE_MAREQUEST: u32 = 0x4000_0000;

pub const MACH_PORT_UREFS_MAX: u32 = 0xFFFF;
pub const MACH_PORT_QLIMIT_DEFAULT: u32 = 5;
pub const MACH_PORT_QLIMIT_MAX: u32 = 16;
pub const MACH_PORT_KTYPE_NONE: u32 = 0;
pub const MACH_PORT_KTYPE_USER_DEVICE: u32 = 28;

pub const MACH_NOTIFY_FIRST: mach_msg_id_t = 64;
pub const MACH_NOTIFY_PORT_DELETED: mach_msg_id_t = 65;
pub const MACH_NOTIFY_MSG_ACCEPTED: mach_msg_id_t = 66;
pub const MACH_NOTIFY_PORT_DESTROYED: mach_msg_id_t = 69;
pub const MACH_NOTIFY_NO_SENDERS: mach_msg_id_t = 70;
pub const MACH_NOTIFY_SEND_ONCE: mach_msg_id_t = 71;
pub const MACH_NOTIFY_DEAD_NAME: mach_msg_id_t = 72;

// ─── Entry and object bits ───────────────────────────────────────

pub const IE_BITS_UREFS_MASK: ipc_entry_bits_t = 0x0000_ffff;
pub const IE_BITS_TYPE_MASK: ipc_entry_bits_t = 0x001f_0000;
pub const IE_BITS_MAREQUEST: ipc_entry_bits_t = 0x0020_0000;
pub const IE_BITS_RIGHT_MASK: ipc_entry_bits_t = 0x003f_ffff;

pub const IO_BITS_KOTYPE: ipc_object_bits_t = 0x0000_ffff;
pub const IO_BITS_OTYPE: ipc_object_bits_t = 0x3fff_0000;
pub const IO_BITS_PROTECTED_PAYLOAD: ipc_object_bits_t = 0x4000_0000;
pub const IO_BITS_ACTIVE: ipc_object_bits_t = 0x8000_0000;

pub const IOT_PORT: u32 = 0;
pub const IOT_PORT_SET: u32 = 1;

pub const IKOT_NONE: u32 = 0;
pub const IKOT_PAGING_REQUEST: u32 = 9;
pub const IKOT_DEVICE: u32 = 10;
pub const IKOT_USER_DEVICE: u32 = 28;

pub const VM_MIN_KERNEL_ADDRESS: u32 = 0xC000_0000;
pub const IS_FREE_LIST_SIZE_LIMIT: usize = 64;

// ─── Plain kernel records ───────────────────────────────────────

/// The status of a receive right, as `mach_port_get_receive_status`
/// reports it.
#[derive(Clone, Copy, Debug, PartialEq, Eq, Structural)]
pub struct mach_port_status_t {
    pub mps_pset: mach_port_name_t,
    pub mps_seqno: mach_port_seqno_t,
    pub mps_mscount: mach_port_mscount_t,
    pub mps_qlimit: mach_port_msgcount_t,
    pub mps_msgcount: mach_port_msgcount_t,
    pub mps_sorights: mach_port_rights_t,
    pub mps_srights: boolean_t,
    pub mps_pdrequest: boolean_t,
    pub mps_nsrequest: boolean_t,
}

/// Forward-declared kernel objects; their contents are not read here.
pub struct task {}
pub struct run_queue {}
pub struct pcb {}
pub struct ipc_kmsg {}
pub struct vm_map {}
pub struct processor {}
pub struct processor_set {}
pub struct queue_entry {}
pub struct host {}
pub struct vm_map_copy {}

/// `struct kmem_cache`: an opaque block of storage.
pub struct kmem_cache {
    pub _bytes: [u8; 128],
}

/// A simple lock has no state on a uniprocessor.
pub struct simple_lock_data_t {}

/// `struct lock` and `struct rdxtree`: opaque 8-byte blocks.
pub struct lock_data_t {
    pub _bytes: [u8; 8],
}

pub struct rdxtree {
    pub _bytes: [u8; 8],
}

/// A queue link; the neighbours are given by address.
pub struct queue_chain_t {
    pub next: usize,
    pub prev: usize,
}

pub struct timer_data_t {
    pub low_bits: u32,
    pub high_bits: u32,
    pub high_bits_check: u32,
    pub tstamp: u32,
}

pub struct timer_save_data_t {
    pub low: u32,
    pub high: u32,
}

pub struct time_value64_t {
    pub seconds: i64,
    pub nanoseconds: i64,
}

/// `struct timeout`; the callback and its argument are given by address.
pub struct timeout_data_t {
    pub chain: queue_chain_t,
    pub fcn: usize,
    pub param: usize,
    pub t_time: u32,
    pub set: u8,
}

/// The header shared by ports and port sets.
pub struct ipc_object {
    pub io_references: ipc_object_refs_t,
    pub io_bits: ipc_object_bits_t,
}

/// A message queue, given by the address of its first message.
pub struct ipc_kmsg_queue {
    pub ikmq_base: usize,
}

pub struct ipc_table_size {
    pub its_size: ipc_table_elems_t,
}

pub struct rdxtree_iter {
    pub node: usize,
    pub key: rdxtree_key_t,
}

/// `mach_msg_header_t`.
#[derive(Clone, Copy, Debug, PartialEq, Eq, Structural)]
pub struct mach_msg_header_t {
    pub msgh_bits: mach_msg_bits_t,
    pub msgh_size: mach_msg_size_t,
    pub msgh_remote_port: u32,
    pub msgh_local_port: u32,
    pub msgh_seqno: mach_port_seqno_t,
    pub msgh_id: mach_msg_id_t,
}

/// `mach_msg_type_t`: the packed type descriptor
/// (name:8, size:8, number:12, inline:1, longform:1, deallocate:1, unused:1,
/// least significant bits first).
#[derive(Clone, Copy, Debug, PartialEq, Eq, Structural)]
pub struct mach_msg_type_t {
    pub bits: u32,
}

/// `mach_msg_type_long_t`.
#[derive(Clone, Copy, Debug, PartialEq, Eq, Structural)]
pub struct mach_msg_type_long_t {
    pub msgtl_header: mach_msg_type_t,
    pub msgtl_name: u16,
    pub msgtl_size: u16,
    pub msgtl_number: natural_t,
}

/// The packed value of a type descriptor with the given fields.
pub open spec fn type_bits(name: u32, size: u32, number: u32, inl: u32, longform: u32, dealloc: u32, unused: u32) -> u32 {
    (name & 0xff) | ((size & 0xff) << 8) | ((number & 0x0fff) << 16) | ((inl & 1) << 28)
        | ((longform & 1) << 29) | ((dealloc & 1) << 30) | ((unused & 1) << 31)
}

impl mach_msg_type_t {
    /// Pack a type descriptor; each field is truncated to its width.
    pub fn new(name: u32, size: u32, number: u32, inline_: u32, longform: u32, deallocate: u32, unused: u32) -> (r: Self)
        ensures
            r.bits == type_bits(name, size, number, inline_, longform, deallocate, unused),
            r.bits & 0xff == name & 0xff,
            (r.bits >> 8) & 0xff == size & 0xff,
            (r.bits >> 16) & 0x0fff == number & 0x0fff,
            (r.bits >> 28) & 1 == inline_ & 1,
            (r.bits >> 29) & 1 == longform & 1,
            (r.bits >> 30) & 1 == deallocate & 1,
            (r.bits >> 31) & 1 == unused & 1,
    {
        let bits = (name & 0xff) | ((size & 0xff) << 8) | ((number & 0x0fff) << 16) | ((inline_ & 1) << 28)
            | ((longform & 1) << 29) | ((deallocate & 1) << 30) | ((unused & 1) << 31);
        proof { lemma_type_pack(name, size, number, inline_, longform, deallocate, unused); }
        mach_msg_type_t { bits }
    }

    /// `msgt_name` (bits 0..8).
    pub fn msgt_name(&self) -> (r: u32)
        ensures r == self.bits & 0xff, r < 256,
    {
        let b = self.bits;
        let r = b & 0xff;
        proof { lemma_type_fields(b); }
        r
    }

    /// `msgt_size` (bits 8..16).
    pub fn msgt_size(&self) -> (r: u32)
        ensures r == (self.bits >> 8) & 0xff, r < 256,
    {
        let b = self.bits;
        let r = (b >> 8) & 0xff;
        proof { lemma_type_fields(b); }
        r
    }

    /// `msgt_number` (bits 16..28).
    pub fn msgt_number(&self) -> (r: u32)
        ensures r == (self.bits >> 16) & 0x0fff, r < 4096,
    {
        let b = self.bits;
        let r = (b >> 16) & 0x0fff;
        proof { lemma_type_fields(b); }
        r
    }

    /// `msgt_inline` (bit 28).
    pub fn msgt_inline(&self) -> (r: u32)
        ensures r == (self.bits >> 28) & 1, r < 2,
    {
        let b = self.bits;
        let r = (b >> 28) & 1;
        proof { lemma_type_fields(b); }
        r
    }

    /// `msgt_longform` (bit 29).
    pub fn msgt_longform(&self) -> (r: u32)
        ensures r == (self.bits >> 29) & 1, r < 2,
    {
        let b = self.bits;
        let r = (b >> 29) & 1;
        proof { lemma_type_fields(b); }
        r
    }

    /// `msgt_deallocate` (bit 30).
    pub fn msgt_deallocate(&self) -> (r: u32)
        ensures r == (self.bits >> 30) & 1, r < 2,
    {
        let b = self.bits;
        let r = (b >> 30) & 1;
        proof { lemma_type_fields(b); }
        r
    }

    /// `msgt_unused` (bit 31).
    pub fn msgt_unused(&self) -> (r: u32)
        ensures r == (self.bits >> 31) & 1, r < 2,
    {
        let b = self.bits;
        let r = (b >> 31) & 1;
        proof { lemma_type_fields(b); }
        r
    }

    /// Replace the name field, keeping every other field.
    pub fn set_msgt_name(&mut self, v: u32)
        ensures
            final(self).bits == (old(self).bits & !0xffu32) | (v & 0xff),
            final(self).bits & 0xff == v & 0xff,
            final(self).bits & !0xffu32 == old(self).bits & !0xffu32,
    {
        let o = self.bits;
        let n = (o & !0xffu32) | (v & 0xff);
        proof { lemma_type_setters(o, v); }
        self.bits = n;
    }

    /// Replace the size field, keeping every other field.
    pub fn set_msgt_size(&mut self, v: u32)
        ensures
            final(self).bits == (old(self).bits & !(0xffu32 << 8u32)) | ((v & 0xff) << 8u32),
            (final(self).bits >> 8) & 0xff == v & 0xff,
            final(self).bits & !0xff00u32 == old(self).bits & !0xff00u32,
    {
        let o = self.bits;
        let n = (o & !(0xffu32 << 8u32)) | ((v & 0xff) << 8u32);
        proof { lemma_type_setters(o, v); }
        self.bits = n;
    }

    /// Replace the deallocate flag, keeping every other field.
    pub fn set_msgt_deallocate(&mut self, v: u32)
        ensures
            final(self).bits == (old(self).bits & !(1u32 << 30u32)) | ((v & 1) << 30u32),
            (final(self).bits >> 30) & 1 == v & 1,
            final(self).bits & !0x4000_0000u32 == old(self).bits & !0x4000_0000u32,
    {
        let o = self.bits;
        let n = (o & !(1u32 << 30u32)) | ((v & 1) << 30u32);
        proof { lemma_type_setters(o, v); }
        self.bits = n;
    }
}

// ─── Header bit helpers ──────────────────────────────────────────

/// `MACH_MSGH_BITS(remote, local)`.
#[allow(non_snake_case)]
pub fn MACH_MSGH_BITS(remote: u32, local: u32) -> (r: u32)
    ensures
        r == remote | (local << 8u32),
        remote < 256 && local < 256 ==> r & 0xff == remote && (r & 0xff00) >> 8u32 == local && r < 0x1_0000,
{
    let r = remote | (local << 8u32);
    proof { lemma_msgh_bits(r, remote, local); }
    r
}

/// `MACH_MSGH_BITS_REMOTE(bits)`.
pub fn mach_msgh_bits_remote(bits: u32) -> (r: u32)
    ensures r == bits & 0xff, r < 256,
{
    let r = bits & 0x0000_00ff;
    proof { lemma_msgh_bits(bits, 0, 0); }
    r
}

/// `MACH_MSGH_BITS_LOCAL(bits)`.
#[allow(non_snake_case)]
pub fn MACH_MSGH_BITS_LOCAL(bits: u32) -> (r: u32)
    ensures r == (bits & 0xff00) >> 8u32, r < 256,
{
    let r = (bits & MACH_MSGH_BITS_LOCAL_MASK) >> 8u32;
    proof { lemma_msgh_bits(bits, 0, 0); }
    r
}

/// `MACH_MSGH_BITS_PORTS(bits)`.
#[allow(non_snake_case)]
pub fn MACH_MSGH_BITS_PORTS(bits: u32) -> (r: u32)
    ensures r == bits & 0xffff,
{
    bits & MACH_MSGH_BITS_PORTS_MASK
}

/// `MACH_MSGH_BITS_OTHER(bits)`.
#[allow(non_snake_case)]
pub fn MACH_MSGH_BITS_OTHER(bits: u32) -> (r: u32)
    ensures r == bits & !0xffffu32, r & 0xffff == 0,
{
    let r = bits & !MACH_MSGH_BITS_PORTS_MASK;
    proof { lemma_msgh_bits(bits, 0, 0); }
    r
}

/// A header's port bits and its other bits partition the header bits.
pub proof fn lemma_msgh_bits_partition(bits: u32)
    ensures
        (bits & 0xffff) | (bits & !0xffffu32) == bits,
        (bits & 0xffff) & (bits & !0xffffu32) == 0,
        bits & 0xffff == (bits & 0xff) | (((bits & 0xff00) >> 8u32) << 8u32),
{
    lemma_msgh_bits(bits, 0, 0);
}

/// Facts about the fields of a header's bits.
pub proof fn lemma_msgh_bits(bits: u32, remote: u32, local: u32)
    by (bit_vector)
    ensures
        bits & 0xff < 256,
        (bits & 0xff00) >> 8u32 < 256,
        (bits & !0xffffu32) & 0xffff == 0,
        (bits & 0xffff) | (bits & !0xffffu32) == bits,
        (bits & 0xffff) & (bits & !0xffffu32) == 0,
        bits & 0xffff == (bits & 0xff) | (((bits & 0xff00) >> 8u32) << 8u32),
        remote < 256 && local < 256 ==> {
            let r = remote | (local << 8u32);
            r & 0xff == remote && (r & 0xff00) >> 8u32 == local && r < 0x1_0000
        },
{
}

// ─── Port type helpers ───────────────────────────────────────────

/// `MACH_PORT_TYPE(right)`: the type bit of a right.
#[allow(non_snake_case)]
pub fn MACH_PORT_TYPE(right: u32) -> (r: u32)
    requires
        right < 16,
    ensures
        r == 1u32 << (right + 16) as u32,
        right == 0 ==> r == MACH_PORT_TYPE_SEND,
        right == 1 ==> r == MACH_PORT_TYPE_RECEIVE,
        right == 2 ==> r == MACH_PORT_TYPE_SEND_ONCE,
        right == 3 ==> r == MACH_PORT_TYPE_PORT_SET,
        right == 4 ==> r == MACH_PORT_TYPE_DEAD_NAME,
{
    let s = right + 16;
    let r = 1u32 << s;
    assert(
        (s == 16 ==> r == 0x0001_0000u32) && (s == 17 ==> r == 0x0002_0000u32) && (s == 18 ==> r == 0x0004_0000u32)
        && (s == 19 ==> r == 0x0008_0000u32) && (s == 20 ==> r == 0x0010_0000u32)
    ) by (bit_vector) requires r == 1u32 << s;
    r
}

/// `MACH_MSG_TYPE_PORT_ANY_RIGHT(x)`: a move of a receive, send or
/// send-once right.
#[allow(non_snake_case)]
pub fn MACH_MSG_TYPE_PORT_ANY_RIGHT(x: u32) -> (r: bool)
    ensures r == (MACH_MSG_TYPE_MOVE_RECEIVE <= x <= MACH_MSG_TYPE_MOVE_SEND_ONCE),
{
    x >= MACH_MSG_TYPE_MOVE_RECEIVE && x <= MACH_MSG_TYPE_MOVE_SEND_ONCE
}

/// The message type names that carry a port right.
pub open spec fn is_port_right(x: u32) -> bool {
    x == MACH_MSG_TYPE_MOVE_RECEIVE || x == MACH_MSG_TYPE_MOVE_SEND || x == MACH_MSG_TYPE_MOVE_SEND_ONCE
        || x == MACH_MSG_TYPE_COPY_SEND || x == MACH_MSG_TYPE_MAKE_SEND || x == MACH_MSG_TYPE_MAKE_SEND_ONCE
}

/// The message type names that stand for a port: the rights, and the
/// protected payload delivered in place of a port's name.
pub open spec fn is_port_any(x: u32) -> bool {
    is_port_right(x) || x == MACH_MSG_TYPE_PROTECTED_PAYLOAD
}

/// The message type names that carry a send or send-once right.
pub open spec fn is_port_any_send(x: u32) -> bool {
    x == MACH_MSG_TYPE_MOVE_SEND || x == MACH_MSG_TYPE_MOVE_SEND_ONCE || x == MACH_MSG_TYPE_COPY_SEND
        || x == MACH_MSG_TYPE_MAKE_SEND || x == MACH_MSG_TYPE_MAKE_SEND_ONCE
}

/// `MACH_MSG_TYPE_PORT_ANY(x)`: true for receive, send, send-once, copy,
/// move, make and payload.
#[allow(non_snake_case)]
pub fn MACH_MSG_TYPE_PORT_ANY(x: u32) -> (r: bool)
    ensures r == is_port_any(x), r == (16 <= x <= 21 || x == MACH_MSG_TYPE_PROTECTED_PAYLOAD),
{
    x == MACH_MSG_TYPE_MOVE_RECEIVE || x == MACH_MSG_TYPE_MOVE_SEND || x == MACH_MSG_TYPE_MOVE_SEND_ONCE
        || x == MACH_MSG_TYPE_COPY_SEND || x == MACH_MSG_TYPE_MAKE_SEND || x == MACH_MSG_TYPE_MAKE_SEND_ONCE
        || x == MACH_MSG_TYPE_PROTECTED_PAYLOAD
}

/// `MACH_MSG_TYPE_PORT_ANY_SEND(x)`.
#[allow(non_snake_case)]
pub fn MACH_MSG_TYPE_PORT_ANY_SEND(x: u32) -> (r: bool)
    ensures r == is_port_any_send(x), r == (17 <= x <= 21),
{
    x == MACH_MSG_TYPE_MOVE_SEND || x == MACH_MSG_TYPE_MOVE_SEND_ONCE || x == MACH_MSG_TYPE_COPY_SEND
        || x == MACH_MSG_TYPE_MAKE_SEND || x == MACH_MSG_TYPE_MAKE_SEND_ONCE
}

// ─── Size and name helpers ───────────────────────────────────────

/// `round_page(x)`: the least multiple of the page size not below `x`.
pub fn round_page(x: vm_size_t) -> (r: vm_size_t)
    requires
        x + 4095 <= u32::MAX,
    ensures
        r % 4096 == 0,
        x <= r < x + 4096,
{
    let y = x + (PAGE_SIZE - 1);
    let r = y & !(PAGE_SIZE - 1);
    proof { lemma_align(x); }
    r
}

/// `mach_msg_kernel_align(x)`: round up to the kernel message alignment.
pub fn mach_msg_kernel_align(x: vm_offset_t) -> (r: vm_offset_t)
    requires
        x + 3 <= u32::MAX,
    ensures
        r % 4 == 0,
        x <= r < x + 4,
{
    let y = x + (MACH_MSG_KERNEL_ALIGNMENT - 1);
    let r = y & !(MACH_MSG_KERNEL_ALIGNMENT - 1);
    proof { lemma_align(x); }
    r
}

/// `mach_msg_kernel_is_misaligned(x)`.
pub fn mach_msg_kernel_is_misaligned(x: vm_offset_t) -> (r: bool)
    ensures r == (x % 4 != 0),
{
    let r = (x & (MACH_MSG_KERNEL_ALIGNMENT - 1)) != 0;
    proof { lemma_align(x); }
    r
}

/// `MACH_PORT_NAME_VALID(name)`: neither the null nor the dead name.
pub fn mach_port_name_valid(name: mach_port_name_t) -> (r: bool)
    ensures r == (name != MACH_PORT_NAME_NULL && name != MACH_PORT_NAME_DEAD),
{
    name != 0 && name != 0xFFFF_FFFFu32
}

/// `ipc_port_timestamp` ordering: `one` was taken before `two`, modulo
/// wrap-around of the counter.
pub fn ip_timestamp_order(one: ipc_port_timestamp_t, two: ipc_port_timestamp_t) -> (r: bool)
    ensures
        r == ((one as i32).wrapping_sub(two as i32) < 0),
        one < 0x8000_0000 && two < 0x8000_0000 ==> r == (one < two),
{
    let r = (one as i32).wrapping_sub(two as i32) < 0;
    proof {
        if one < 0x8000_0000 && two < 0x8000_0000 {
            assert((one as i32) as int == one as int);
            assert((two as i32) as int == two as int);
        }
    }
    r
}

/// `io_makebits(active, otype, kotype)`: the bits of an object header.
pub fn io_makebits(active: bool, otype: u32, kotype: u32) -> (r: ipc_object_bits_t)
    requires
        otype < 0x4000,
        kotype <= 0xffff,
    ensures
        r == (if active { IO_BITS_ACTIVE } else { 0u32 }) | (otype << 16u32) | kotype,
        (r & IO_BITS_ACTIVE != 0) == active,
        (r & IO_BITS_OTYPE) >> 16u32 == otype,
        r & IO_BITS_KOTYPE == kotype,
{
    let a: u32 = if active { IO_BITS_ACTIVE } else { 0 };
    let r = a | (otype << 16u32) | kotype;
    assert((r & 0x8000_0000u32 != 0) == (a == 0x8000_0000u32) && (r & 0x3fff_0000u32) >> 16u32 == otype
        && r & 0xffffu32 == kotype) by (bit_vector)
        requires r == a | (otype << 16u32) | kotype, a == 0 || a == 0x8000_0000u32, otype < 0x4000, kotype <= 0xffff;
    r
}

/// `KEY(obj)`: radix-tree key of a kernel object address.
pub fn rdxtree_key_of(obj: u32) -> (r: rdxtree_key_t)
    ensures r == obj.wrapping_sub(VM_MIN_KERNEL_ADDRESS) >> 3u32,
{
    obj.wrapping_sub(VM_MIN_KERNEL_ADDRESS) >> 3u32
}

/// Facts about packing the fields of a type descriptor.
pub proof fn lemma_type_pack(name: u32, size: u32, number: u32, inl: u32, longform: u32, dealloc: u32, unused: u32)
    by (bit_vector)
    ensures ({
        let bits = (name & 0xff) | ((size & 0xff) << 8) | ((number & 0x0fff) << 16) | ((inl & 1) << 28)
            | ((longform & 1) << 29) | ((dealloc & 1) << 30) | ((unused & 1) << 31);
        &&& bits & 0xff == name & 0xff
        &&& (bits >> 8) & 0xff == size & 0xff
        &&& (bits >> 16) & 0x0fff == number & 0x0fff
        &&& (bits >> 28) & 1 == inl & 1
        &&& (bits >> 29) & 1 == longform & 1
        &&& (bits >> 30) & 1 == dealloc & 1
        &&& (bits >> 31) & 1 == unused & 1
    }),
{
}

/// The width of each field of a type descriptor.
pub proof fn lemma_type_fields(b: u32)
    by (bit_vector)
    ensures
        b & 0xff < 256,
        (b >> 8) & 0xff < 256,
        (b >> 16) & 0x0fff < 4096,
        (b >> 28) & 1 < 2,
        (b >> 29) & 1 < 2,
        (b >> 30) & 1 < 2,
        (b >> 31) & 1 < 2,
{
}

/// Each setter changes its own field and keeps the others.
pub proof fn lemma_type_setters(o: u32, v: u32)
    by (bit_vector)
    ensures ({
        let n1 = (o & !0xffu32) | (v & 0xff);
        let n2 = (o & !(0xffu32 << 8u32)) | ((v & 0xff) << 8u32);
        let n3 = (o & !(1u32 << 30u32)) | ((v & 1) << 30u32);
        &&& n1 & 0xff == v & 0xff && n1 & !0xffu32 == o & !0xffu32
        &&& (n2 >> 8) & 0xff == v & 0xff && n2 & !0xff00u32 == o & !0xff00u32
        &&& (n3 >> 30) & 1 == v & 1 && n3 & !0x4000_0000u32 == o & !0x4000_0000u32
    }),
{
}

/// Rounding up to a page or to the message alignment.
pub proof fn lemma_align(x: u32)
    by (bit_vector)
    ensures
        x + 4095 <= 0xFFFF_FFFFu32 ==> {
            let r = ((x + 4095) as u32) & !4095u32;
            r % 4096 == 0 && x <= r && r < x + 4096
        },
        x + 3 <= 0xFFFF_FFFFu32 ==> {
            let r = ((x + 3) as u32) & !3u32;
            r % 4 == 0 && x <= r && r < x + 4
        },
        (x & 3u32 != 0) == (x % 4 != 0),
{
}

} // verus!
