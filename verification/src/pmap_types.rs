//! Page-table entry arithmetic and constants of the i386 physical map
//! (default, non-PAE configuration: 32-bit entries, two-level paging).

use vstd::prelude::*;

verus! {

/// `vm_offset_t` / `vm_size_t`.
pub type VmOffset = usize;
pub type VmSize = usize;
/// `integer_t` / `natural_t`.
pub type Integer = i32;
pub type Natural = u32;
/// `phys_addr_t` on the non-PAE build.
pub type PhysAddr = u32;
/// `pt_entry_t`.
pub type Pte = PhysAddr;
/// `vm_prot_t`.
pub type VmProt = i32;
/// `kern_return_t`.
pub type KernReturn = i32;

// ─── PTE bits ────────────────────────────────────────────────────

pub const INTEL_PTE_VALID: PhysAddr = 0x0000_0001;
pub const INTEL_PTE_WRITE: PhysAddr = 0x0000_0002;
pub const INTEL_PTE_USER: PhysAddr = 0x0000_0004;
pub const INTEL_PTE_WTHRU: PhysAddr = 0x0000_0008;
pub const INTEL_PTE_NCACHE: PhysAddr = 0x0000_0010;
pub const INTEL_PTE_REF: PhysAddr = 0x0000_0020;
pub const INTEL_PTE_MOD: PhysAddr = 0x0000_0040;
pub const INTEL_PTE_PS: PhysAddr = 0x0000_0080;
pub const INTEL_PTE_GLOBAL: PhysAddr = 0x0000_0100;
pub const INTEL_PTE_WIRED: PhysAddr = 0x0000_0200;
/// No-execute is handled elsewhere; the bit is empty here.
pub const INTEL_PTE_EXECUTE: PhysAddr = 0;
/// Page-frame field of an entry.
pub const INTEL_PTE_PFN: PhysAddr = 0xFFFF_F000;
/// Offset-within-page mask.
pub const INTEL_OFFMASK: PhysAddr = 0xFFF;

// ─── Page size and paging geometry ───────────────────────────────

pub const I386_PGSHIFT: u32 = 12;
pub const I386_PGBYTES: usize = 4096;

/// Two-level paging: directory index in bits 22..32, table index in 12..22.
pub const PDESHIFT: u32 = 22;
pub const PDEMASK: u32 = 0x3FF;
pub const PTEMASK: u32 = 0x3FF;
pub const PTESHIFT: u32 = 12;

/// Geometry of the wider paging modes, used by the helpers that only
/// exist there (`lin2l4num`, `lin2pdpnum`, `lin2pdenum_cont`).
pub const L4SHIFT: u32 = 39;
pub const L4MASK: u32 = 0x1FF;
pub const PDPSHIFT: u32 = 30;
pub const PDPMASK: u32 = 0x1FF;
pub const PAE_PDESHIFT: u32 = 21;

// ─── VM protection and kernel return codes ───────────────────────

pub const VM_PROT_NONE: VmProt = 0x00;
pub const VM_PROT_READ: VmProt = 0x01;
pub const VM_PROT_WRITE: VmProt = 0x02;
pub const VM_PROT_EXECUTE: VmProt = 0x04;
pub const VM_PROT_ALL: VmProt = 0x07;

pub const KERN_SUCCESS: KernReturn = 0;
pub const KERN_INVALID_ADDRESS: KernReturn = 1;
pub const KERN_PROTECTION_FAILURE: KernReturn = 2;
pub const KERN_RESOURCE_SHORTAGE: KernReturn = 6;

/// `struct pmap_statistics`.
#[derive(Clone, Copy, Debug, PartialEq, Eq, Structural, Default)]
pub struct PmapStatistics {
    pub resident_count: Integer,
    pub wired_count: Integer,
}

/// The simple lock embedded in a pmap (no state on a uniprocessor).
#[derive(Clone, Copy, Debug, PartialEq, Eq, Structural, Default)]
pub struct SimpleLock {
    pub lock_data: u32,
}


// ─── Lock guards ─────────────────────────────────────────────────

/// Exclusive lock on the pmap system for pv-list operations.  On a
/// uniprocessor there is nothing to lock: the guard is empty.
#[derive(Debug)]
pub struct PmapWriteGuard {}

impl PmapWriteGuard {
    /// Take the lock (nothing to do on a uniprocessor).
    pub fn acquire() -> (g: PmapWriteGuard)
        ensures
            g == (PmapWriteGuard {}),
    {
        PmapWriteGuard {}
    }
}

/// Lock on one entry of the pv head table; empty on a uniprocessor.
#[derive(Debug)]
pub struct PvLockGuard {}

impl PvLockGuard {
    /// Lock pv head `_index` (nothing to do on a uniprocessor).
    pub fn acquire(_index: usize) -> (g: PvLockGuard)
        ensures
            g == (PvLockGuard {}),
    {
        PvLockGuard {}
    }
}

// ─── Specifications ──────────────────────────────────────────────

/// The frame (page-aligned part) of a 32-bit value.
pub open spec fn frame_of(x: u32) -> u32 {
    x & 0xFFFF_F000u32
}

/// Index of the page-directory entry covering a linear address.
pub open spec fn pde_index(addr: int) -> int {
    (addr / 0x40_0000) % 1024
}

/// Index of the page-table entry covering a linear address.
pub open spec fn pte_index(addr: int) -> int {
    (addr / 0x1000) % 1024
}

// ─── PTE helpers ─────────────────────────────────────────────────

/// Convert a physical address to a PTE value: keep only the frame bits.
pub fn pa_to_pte(pa: PhysAddr) -> (r: PhysAddr)
    ensures
        r == frame_of(pa),
        r % 4096 == 0,
        r <= pa,
        pa - r < 4096,
        r == pa - pa % 4096,
{
    let r = pa & INTEL_PTE_PFN;
    proof { lemma_frame_bits(pa, 0); }
    r
}

/// Extract the physical frame address from a PTE value.
pub fn pte_to_pa(pte: PhysAddr) -> (r: PhysAddr)
    ensures
        r == frame_of(pte),
        r % 4096 == 0,
        r == pte - pte % 4096,
{
    let r = pte & INTEL_PTE_PFN;
    proof { lemma_frame_bits(pte, 0); }
    r
}

/// Advance a PTE by one page (`pte += INTEL_OFFMASK + 1`).
pub fn pte_increment_pa(pte: &mut PhysAddr)
    requires
        *old(pte) + 4096 <= u32::MAX,
    ensures
        *final(pte) == *old(pte) + 4096,
        frame_of(*final(pte)) == frame_of(*old(pte)) + 4096,
        *final(pte) % 4096 == *old(pte) % 4096,
{
    let o = *pte;
    *pte = o + (INTEL_OFFMASK + 1);
    let n = *pte;
    proof { lemma_frame_bits(o, n); }
}

/// Is the entry present (valid bit set)?
pub fn pte_is_valid(pte: PhysAddr) -> (r: bool)
    ensures
        r == (pte & 1u32 != 0),
        r == (pte % 2 == 1),
{
    let r = (pte & INTEL_PTE_VALID) != 0;
    proof { lemma_frame_bits(pte, 0); }
    r
}

// ─── Page-table index math ───────────────────────────────────────

/// Level-4 index of a linear address (bits 39..48).
pub fn lin2l4num(addr: VmOffset) -> (r: u32)
    ensures
        r == (addr as int / 0x80_0000_0000int) % 512,
        r < 512,
{
    let a: u64 = addr as u64;
    let r = ((a >> 39u64) & 0x1FFu64) as u32;
    proof { lemma_index_bits(a); }
    r
}

/// Page-directory-pointer index of a linear address (bits 30..39).
pub fn lin2pdpnum(addr: VmOffset) -> (r: u32)
    ensures
        r == (addr as int / 0x4000_0000int) % 512,
        r < 512,
{
    let a: u64 = addr as u64;
    let r = ((a >> 30u64) & 0x1FFu64) as u32;
    proof { lemma_index_bits(a); }
    r
}

/// Page-directory index of a linear address (bits 22..32).
pub fn lin2pdenum(addr: VmOffset) -> (r: u32)
    ensures
        r == pde_index(addr as int),
        r < 1024,
{
    let a: u64 = addr as u64;
    let r = ((a >> 22u64) & 0x3FFu64) as u32;
    proof { lemma_index_bits(a); }
    r
}

/// Page-table index of a linear address (bits 12..22).
pub fn ptenum(addr: VmOffset) -> (r: u32)
    ensures
        r == pte_index(addr as int),
        r < 1024,
{
    let a: u64 = addr as u64;
    let r = ((a >> 12u64) & 0x3FFu64) as u32;
    proof { lemma_index_bits(a); }
    r
}

/// Contiguous directory index over all directory pages (wider paging mode:
/// bits 21..32).
pub fn lin2pdenum_cont(addr: VmOffset) -> (r: u32)
    ensures
        r == (addr as int / 0x20_0000int) % 2048,
        r < 2048,
{
    let a: u64 = addr as u64;
    let r = ((a >> 21u64) & 0x7FFu64) as u32;
    proof { lemma_index_bits(a); }
    r
}

/// Linear address of the first byte mapped by a directory entry.
pub fn pdenum2lin(pde_idx: u32) -> (r: VmOffset)
    ensures
        r == (pde_idx as usize) << 22usize,
        pde_idx < 1024 ==> r == pde_idx * 0x40_0000,
{
    let x: usize = pde_idx as usize;
    let r = x << 22usize;
    proof { lemma_shift_bits(x); }
    r
}

/// Page-aligned linear address from its directory and table indices
/// (two-level paging ignores the upper-level indices).
pub fn pagenum2lin(_l4: u32, _pdp: u32, pde: u32, pte: u32) -> (r: VmOffset)
    requires
        (((pde as usize) << 22usize) as int) + (((pte as usize) << 12usize) as int) <= usize::MAX,
    ensures
        r == (((pde as usize) << 22usize) as int) + (((pte as usize) << 12usize) as int),
        pde < 1024 && pte < 1024 ==> {
            &&& r == pde * 0x40_0000 + pte * 0x1000
            &&& r % 4096 == 0
            &&& pde_index(r as int) == pde
            &&& pte_index(r as int) == pte
        },
{
    let hi = pdenum2lin(pde);
    let p: usize = pte as usize;
    let lo = p << 12usize;
    proof { lemma_shift_bits(p); }
    let r = hi + lo;
    proof {
        if pde < 1024 && pte < 1024 {
            lemma_split_address(pde as int, pte as int, 0);
        }
    }
    r
}

/// A linear address is the sum of its directory part, table part and
/// in-page offset, each of which the helpers above recover.
pub proof fn lemma_split_address(d: int, t: int, off: int)
    requires
        0 <= d < 1024,
        0 <= t < 1024,
        0 <= off < 4096,
    ensures
        pde_index(d * 0x40_0000 + t * 0x1000 + off) == d,
        pte_index(d * 0x40_0000 + t * 0x1000 + off) == t,
        (d * 0x40_0000 + t * 0x1000 + off) % 4096 == off,
{
    let a = d * 0x40_0000 + t * 0x1000 + off;
    assert(a / 0x40_0000 == d) by (nonlinear_arith)
        requires a == d * 0x40_0000 + t * 0x1000 + off, 0 <= t < 1024, 0 <= off < 4096, 0 <= d;
    assert(a / 0x1000 == d * 1024 + t) by (nonlinear_arith)
        requires a == d * 0x40_0000 + t * 0x1000 + off, 0 <= t, 0 <= off < 4096, 0 <= d;
    assert((d * 1024 + t) % 1024 == t) by (nonlinear_arith)
        requires 0 <= t < 1024, 0 <= d;
    assert(a % 4096 == off) by (nonlinear_arith)
        requires a == d * 0x40_0000 + t * 0x1000 + off, 0 <= t, 0 <= off < 4096, 0 <= d;
}

/// Converting a physical address to an entry and back keeps exactly its
/// frame; for a page-aligned address that is the address itself.
pub proof fn lemma_pa_pte_roundtrip(pa: u32)
    ensures
        frame_of(frame_of(pa)) == frame_of(pa),
        pa % 4096 == 0 ==> frame_of(pa) == pa,
        frame_of(pa) & 0xFFFu32 == 0,
{
    lemma_frame_bits(pa, 0);
}

/// Every address decomposes into directory index, table index and offset.
pub proof fn lemma_address_decomposes(a: u32)
    ensures
        a == pde_index(a as int) * 0x40_0000 + pte_index(a as int) * 0x1000 + a % 4096,
{
    assert(a == (a / 0x40_0000u32) % 1024 * 0x40_0000 + (a / 0x1000u32) % 1024 * 0x1000 + a % 4096)
        by (bit_vector);
}

/// Facts about the frame and flag bits of a 32-bit entry, and about
/// advancing an entry `o` to `n == o + 4096`.
pub proof fn lemma_frame_bits(pa: u32, n: u32)
    by (bit_vector)
    ensures
        (pa & 0xFFFF_F000u32) % 4096 == 0,
        pa & 0xFFFF_F000u32 <= pa,
        pa - (pa & 0xFFFF_F000u32) < 4096,
        pa & 0xFFFF_F000u32 == pa - pa % 4096,
        (pa & 1u32 != 0) == (pa % 2 == 1),
        (pa & 0xFFFF_F000u32) & 0xFFFF_F000u32 == pa & 0xFFFF_F000u32,
        pa % 4096 == 0 ==> pa & 0xFFFF_F000u32 == pa,
        (pa & 0xFFFF_F000u32) & 0xFFFu32 == 0,
        n == pa + 4096 && pa + 4096 <= 0xFFFF_FFFFu32 ==>
            n & 0xFFFF_F000u32 == (pa & 0xFFFF_F000u32) + 4096 && n % 4096 == pa % 4096,
{
}

/// The table indices of a linear address are fields of its bits.
pub proof fn lemma_index_bits(a: u64)
    by (bit_vector)
    ensures
        ((a >> 39u64) & 0x1FFu64) == (a / 0x80_0000_0000u64) % 512 && (a >> 39u64) & 0x1FFu64 < 512,
        ((a >> 30u64) & 0x1FFu64) == (a / 0x4000_0000u64) % 512 && (a >> 30u64) & 0x1FFu64 < 512,
        ((a >> 22u64) & 0x3FFu64) == (a / 0x40_0000u64) % 1024 && (a >> 22u64) & 0x3FFu64 < 1024,
        ((a >> 12u64) & 0x3FFu64) == (a / 0x1000u64) % 1024 && (a >> 12u64) & 0x3FFu64 < 1024,
        ((a >> 21u64) & 0x7FFu64) == (a / 0x20_0000u64) % 2048 && (a >> 21u64) & 0x7FFu64 < 2048,
{
}

/// Shifting a table index into place is a multiplication.
pub proof fn lemma_shift_bits(x: usize)
    by (bit_vector)
    ensures
        x < 1024 ==> x << 22usize == x * 0x40_0000,
        x < 1024 ==> x << 12usize == x * 0x1000,
{
}

} // verus!
