//! The i386 physical map (two-level paging, uniprocessor): translation of
//! virtual to physical addresses through page directories and page tables
//! kept in physical memory, the physical-to-virtual (pv) lists of managed
//! pages, and their modified/referenced attributes.
//!
//! Physical memory is a vector of 32-bit words (word `k` holds bytes
//! `4k..4k+4`); a word outside the vector reads as 0 and ignores writes.
//! Pmaps are named by their index in the system's pmap vector; index 0 is
//! the kernel pmap.  TLB maintenance has no effect on the model's state.

use vstd::prelude::*;
use crate::pmap_types::{
    lemma_frame_bits, frame_of, pdenum2lin, pde_index, pte_index, lin2pdenum, ptenum, pa_to_pte, pte_to_pa, PmapStatistics,
    INTEL_PTE_VALID, INTEL_PTE_WRITE, INTEL_PTE_USER, INTEL_PTE_WTHRU, INTEL_PTE_NCACHE,
    INTEL_PTE_MOD, INTEL_PTE_WIRED, INTEL_OFFMASK, VM_PROT_READ,
    VM_PROT_WRITE, VM_PROT_EXECUTE, VM_PROT_ALL,
};

verus! {

pub const PAGE_SIZE: u32 = 4096;
pub const NPTES: u32 = 1024;
pub const PDE_MAPPED_SIZE: u32 = 0x40_0000;
pub const VM_MIN_KERNEL_ADDRESS: u32 = 0xC000_0000;
pub const LINEAR_MIN_KERNEL_ADDRESS: u32 = 0xC000_0000;
pub const VM_MAX_KERNEL_ADDRESS: u32 = 0xFFFF_FFFF;
pub const VM_MAX_USER_ADDRESS: u32 = 0xC000_0000;
pub const VM_KERNEL_MAP_SIZE: u32 = 170 * 1024 * 1024;
pub const PMAP_NMAPWINDOWS: u32 = 2;
pub const MAPWINDOW_SIZE: u32 = 2 * 4096;
pub const CPU_TYPE_I486: i32 = 17;
pub const BYTE_SIZE: usize = 8;
/// The page attributes kept for removed mappings: modified and referenced.
pub const PHYS_MODIFIED: u32 = 0x40;
pub const PHYS_REFERENCED: u32 = 0x20;
/// Both attribute bits.
pub const PHYS_MOD_REF: u32 = 0x60;

/// Fixed parameters of the physical-map system.
#[derive(Clone, Copy, Debug, PartialEq, Eq, Structural)]
pub struct PmapConfig {
    /// Physical page number of the first managed page.
    pub first_managed_page: u32,
    /// `pmap_initialized`: managed pages are tracked only after `pmap_init`.
    pub initialized: bool,
    /// Whether the VM page table is ready (else physical memory is the
    /// direct-mapped range).
    pub vm_page_ready: bool,
    /// End of directly mapped physical memory.
    pub directmap_end: u32,
    /// Type of the boot processor.
    pub cpu_type: i32,
    pub kernel_virtual_start: u32,
    pub kernel_virtual_end: u32,
}

/// `struct pmap`: its page directory (1024 entries, or none), the physical
/// address of that directory, its reference count, statistics and CPU use.
pub struct Pmap {
    pub dir: Vec<u32>,
    pub dirbase: u32,
    pub ref_count: i32,
    pub stats: PmapStatistics,
    pub cpus_using: i32,
}

/// What a pmap holds, as mathematical values.
#[verifier::ext_equal]
pub ghost struct PmapView {
    pub dir: Seq<u32>,
    pub dirbase: u32,
    pub ref_count: i32,
    pub stats: PmapStatistics,
    pub cpus_using: i32,
}

impl View for Pmap {
    type V = PmapView;

    open spec fn view(&self) -> PmapView {
        PmapView {
            dir: self.dir@,
            dirbase: self.dirbase,
            ref_count: self.ref_count,
            stats: self.stats,
            cpus_using: self.cpus_using,
        }
    }
}

/// A pv-list entry: the pmap (by index) and virtual address of one mapping
/// of a page.
#[derive(Clone, Copy, Debug, PartialEq, Eq, Structural)]
pub struct PvEntry {
    pub pmap: usize,
    pub va: u32,
}

/// A temporary kernel mapping window: the word of its PTE and its address.
#[derive(Clone, Copy, Debug, PartialEq, Eq, Structural)]
pub struct PmapMapwindow {
    pub entry: usize,
    pub vaddr: u32,
}

/// The physical-map system.
pub struct PmapSystem {
    /// Physical memory holding the page tables, as words.
    pub mem: Vec<u32>,
    /// All pmaps; index 0 is the kernel pmap.
    pub pmaps: Vec<Pmap>,
    /// Mappings of each managed page, head first.
    pub pv_head_table: Vec<Vec<PvEntry>>,
    /// Modified/referenced bits gathered from removed mappings.
    pub phys_attributes: Vec<u8>,
    /// Free page-table pages (physical addresses).
    pub pt_free: Vec<u32>,
    /// Free page-directory pages (physical addresses).
    pub pd_free: Vec<u32>,
    /// The temporary mapping windows.
    pub mapwindows: Vec<PmapMapwindow>,
    pub cfg: PmapConfig,
}

/// The whole system as mathematical values.
#[verifier::ext_equal]
pub ghost struct SysView {
    pub mem: Seq<u32>,
    pub pmaps: Seq<PmapView>,
    pub pv: Seq<Seq<PvEntry>>,
    pub attrs: Seq<u8>,
    pub pt_free: Seq<u32>,
    pub pd_free: Seq<u32>,
    pub mapwindows: Seq<PmapMapwindow>,
    pub cfg: PmapConfig,
}

impl View for PmapSystem {
    type V = SysView;

    open spec fn view(&self) -> SysView {
        SysView {
            mem: self.mem@,
            pmaps: self.pmaps@.map_values(|q: Pmap| q@),
            pv: self.pv_head_table@.map_values(|l: Vec<PvEntry>| l@),
            attrs: self.phys_attributes@,
            pt_free: self.pt_free@,
            pd_free: self.pd_free@,
            mapwindows: self.mapwindows@,
            cfg: self.cfg,
        }
    }
}

/// Well-formedness: every directory has 1024 entries or none, every present
/// directory entry and every free page-table page lies inside memory, and
/// there is one attribute byte per managed page.
pub open spec fn wf(s: SysView) -> bool {
    &&& s.pmaps.len() >= 1
    &&& s.attrs.len() == s.pv.len()
    &&& forall|q: int| 0 <= q < s.pmaps.len() ==> dir_ok(s, #[trigger] s.pmaps[q].dir)
    &&& forall|i: int| 0 <= i < s.pt_free.len() ==> frame_ok(s, #[trigger] s.pt_free[i])
}

/// A page-aligned physical page that lies inside memory.
pub open spec fn frame_ok(s: SysView, f: u32) -> bool {
    f % 4096 == 0 && f as int / 4 + 1024 <= s.mem.len()
}

/// A directory of 1024 entries (or none) whose present entries point into memory.
pub open spec fn dir_ok(s: SysView, d: Seq<u32>) -> bool {
    &&& (d.len() == 0 || d.len() == 1024)
    &&& forall|i: int| 0 <= i < d.len() && #[trigger] d[i] & 1u32 != 0 ==> frame_ok(s, frame_of(d[i]))
}

// ─── Memory ───────────────────────────────────────────────────────

/// The word at index `w` (0 outside memory).
pub open spec fn rd(mem: Seq<u32>, w: int) -> u32 {
    if 0 <= w < mem.len() { mem[w] } else { 0 }
}

/// Memory after writing `v` at word `w` (no change outside memory).
pub open spec fn wr(mem: Seq<u32>, w: int, v: u32) -> Seq<u32> {
    if 0 <= w < mem.len() { mem.update(w, v) } else { mem }
}

fn read_word(mem: &Vec<u32>, w: usize) -> (r: u32)
    ensures r == rd(mem@, w as int),
{
    if w < mem.len() { mem[w] } else { 0 }
}

// ─── Address helpers ──────────────────────────────────────────────

/// `phystokv(a)`: kernel virtual address of physical address `a`.
pub fn phystokv(a: u32) -> (r: u32)
    ensures r == (a as int + VM_MIN_KERNEL_ADDRESS as int) % 0x1_0000_0000,
{
    a.wrapping_add(VM_MIN_KERNEL_ADDRESS)
}

/// `_kvtophys(a)`: physical address of a direct-mapped kernel address.
pub fn _kvtophys(a: u32) -> (r: u32)
    requires a >= VM_MIN_KERNEL_ADDRESS,
    ensures r == a - VM_MIN_KERNEL_ADDRESS,
{
    a - VM_MIN_KERNEL_ADDRESS
}

/// `kvtolin(a)`: linear address of a kernel virtual address (the two
/// bases coincide, so this is the identity).
pub fn kvtolin(a: u32) -> (r: u32)
    ensures r == a,
{
    a.wrapping_sub(VM_MIN_KERNEL_ADDRESS).wrapping_add(LINEAR_MIN_KERNEL_ADDRESS)
}

/// `ptetokv(p)`: kernel virtual address of the page an entry points to.
pub fn ptetokv(p: u32) -> (r: u32)
    ensures r == (frame_of(p) as int + VM_MIN_KERNEL_ADDRESS as int) % 0x1_0000_0000,
{
    phystokv(pte_to_pa(p))
}

/// `intel_btop(x)`: number of whole pages in `x` bytes.
pub fn intel_btop(x: u32) -> (r: u32)
    ensures r == x / 4096,
{
    x / 4096
}

/// `pv_lock_table_size(n)`: bytes of a bitmap with one bit per page.
pub fn pv_lock_table_size(n: usize) -> (r: usize)
    ensures r == (n as int + 7) / 8,
{
    n / BYTE_SIZE + if n % BYTE_SIZE != 0 { 1 } else { 0 }
}

// ─── State updates ────────────────────────────────────────────────

/// The system with word `w` of memory set to `v`.
pub open spec fn with_word(s: SysView, w: int, v: u32) -> SysView {
    SysView { mem: wr(s.mem, w, v), ..s }
}

/// The system with entry `i` of pmap `p`'s directory set to `v`.
pub open spec fn with_pde(s: SysView, p: int, i: int, v: u32) -> SysView {
    SysView { pmaps: s.pmaps.update(p, PmapView { dir: s.pmaps[p].dir.update(i, v), ..s.pmaps[p] }), ..s }
}

/// The system with pmap `p`'s statistics replaced.
pub open spec fn with_stats(s: SysView, p: int, st: PmapStatistics) -> SysView {
    SysView { pmaps: s.pmaps.update(p, PmapView { stats: st, ..s.pmaps[p] }), ..s }
}

/// The system with the pv list of page `i` replaced.
pub open spec fn with_pv(s: SysView, i: int, l: Seq<PvEntry>) -> SysView {
    SysView { pv: s.pv.update(i, l), ..s }
}

/// The system with the attribute byte of page `i` replaced.
pub open spec fn with_attr(s: SysView, i: int, b: u8) -> SysView {
    SysView { attrs: s.attrs.update(i, b), ..s }
}

fn set_word(sys: &mut PmapSystem, w: usize, v: u32)
    ensures
        final(sys).pmaps.len() == old(sys).pmaps.len(),
        final(sys).pv_head_table.len() == old(sys).pv_head_table.len(),
        final(sys).phys_attributes.len() == old(sys).phys_attributes.len(),
        final(sys).mem.len() == old(sys).mem.len(),
        final(sys).cfg == old(sys).cfg,
        final(sys)@ == with_word(old(sys)@, w as int, v),
{
    if w < sys.mem.len() {
        sys.mem.set(w, v);
    }
    proof { assert(sys@ =~= with_word(old(sys)@, w as int, v)); }
}

fn set_pde(sys: &mut PmapSystem, p: usize, i: usize, v: u32)
    requires
        p < old(sys).pmaps.len(),
        i < old(sys).pmaps[p as int].dir.len(),
    ensures
        final(sys).pmaps.len() == old(sys).pmaps.len(),
        final(sys).pv_head_table.len() == old(sys).pv_head_table.len(),
        final(sys).phys_attributes.len() == old(sys).phys_attributes.len(),
        final(sys).mem.len() == old(sys).mem.len(),
        final(sys).cfg == old(sys).cfg,
        final(sys)@ == with_pde(old(sys)@, p as int, i as int, v),
{
    sys.pmaps[p].dir.set(i, v);
    proof {
        assert(sys@.pmaps[p as int] =~= PmapView { dir: old(sys)@.pmaps[p as int].dir.update(i as int, v), ..old(sys)@.pmaps[p as int] });
        assert(sys@.pmaps =~= with_pde(old(sys)@, p as int, i as int, v).pmaps);
        assert(sys@ =~= with_pde(old(sys)@, p as int, i as int, v));
    }
}

fn set_stats(sys: &mut PmapSystem, p: usize, st: PmapStatistics)
    requires
        p < old(sys).pmaps.len(),
    ensures
        final(sys).pmaps.len() == old(sys).pmaps.len(),
        final(sys).pv_head_table.len() == old(sys).pv_head_table.len(),
        final(sys).phys_attributes.len() == old(sys).phys_attributes.len(),
        final(sys).mem.len() == old(sys).mem.len(),
        final(sys).cfg == old(sys).cfg,
        final(sys)@ == with_stats(old(sys)@, p as int, st),
{
    sys.pmaps[p].stats = st;
    proof {
        assert(sys@.pmaps =~= with_stats(old(sys)@, p as int, st).pmaps);
        assert(sys@ =~= with_stats(old(sys)@, p as int, st));
    }
}

fn set_attr(sys: &mut PmapSystem, i: usize, b: u8)
    requires
        i < old(sys).phys_attributes.len(),
    ensures
        final(sys).pmaps.len() == old(sys).pmaps.len(),
        final(sys).pv_head_table.len() == old(sys).pv_head_table.len(),
        final(sys).phys_attributes.len() == old(sys).phys_attributes.len(),
        final(sys).mem.len() == old(sys).mem.len(),
        final(sys).cfg == old(sys).cfg,
        final(sys)@ == with_attr(old(sys)@, i as int, b),
{
    sys.phys_attributes.set(i, b);
    proof { assert(sys@ =~= with_attr(old(sys)@, i as int, b)); }
}

fn pv_remove_at(sys: &mut PmapSystem, pai: usize, i: usize)
    requires
        pai < old(sys).pv_head_table.len(),
        i < old(sys).pv_head_table[pai as int].len(),
    ensures
        final(sys).pmaps.len() == old(sys).pmaps.len(),
        final(sys).pv_head_table.len() == old(sys).pv_head_table.len(),
        final(sys).phys_attributes.len() == old(sys).phys_attributes.len(),
        final(sys).mem.len() == old(sys).mem.len(),
        final(sys).cfg == old(sys).cfg,
        final(sys)@ == with_pv(old(sys)@, pai as int, old(sys)@.pv[pai as int].remove(i as int)),
{
    sys.pv_head_table[pai].remove(i);
    proof {
        assert(sys@.pv =~= with_pv(old(sys)@, pai as int, old(sys)@.pv[pai as int].remove(i as int)).pv);
        assert(sys@ =~= with_pv(old(sys)@, pai as int, old(sys)@.pv[pai as int].remove(i as int)));
    }
}

fn pv_insert_at(sys: &mut PmapSystem, pai: usize, i: usize, e: PvEntry)
    requires
        pai < old(sys).pv_head_table.len(),
        i <= old(sys).pv_head_table[pai as int].len(),
    ensures
        final(sys).pmaps.len() == old(sys).pmaps.len(),
        final(sys).pv_head_table.len() == old(sys).pv_head_table.len(),
        final(sys).phys_attributes.len() == old(sys).phys_attributes.len(),
        final(sys).mem.len() == old(sys).mem.len(),
        final(sys).cfg == old(sys).cfg,
        final(sys)@ == with_pv(old(sys)@, pai as int, old(sys)@.pv[pai as int].insert(i as int, e)),
{
    sys.pv_head_table[pai].insert(i, e);
    proof {
        assert(sys@.pv =~= with_pv(old(sys)@, pai as int, old(sys)@.pv[pai as int].insert(i as int, e)).pv);
        assert(sys@ =~= with_pv(old(sys)@, pai as int, old(sys)@.pv[pai as int].insert(i as int, e)));
    }
}

// ─── Managed pages and pv lists ───────────────────────────────────

/// Is `pa` in a page tracked by the VM system (`vm_page_lookup_pa`)?
pub open spec fn managed(cfg: PmapConfig, npages: int, pa: u32) -> bool {
    pa / 4096 >= cfg.first_managed_page && pa / 4096 - cfg.first_managed_page < npages
}

/// `valid_page(pa)`: a managed page, once the module is initialized.
pub open spec fn valid_page_spec(cfg: PmapConfig, npages: int, pa: u32) -> bool {
    cfg.initialized && managed(cfg, npages, pa)
}

/// `pa_index(pa)`: the index of a managed page.
pub open spec fn pai(cfg: PmapConfig, pa: u32) -> int {
    pa / 4096 - cfg.first_managed_page
}

/// `valid_page(pa)`.
pub fn valid_page(sys: &PmapSystem, pa: u32) -> (r: bool)
    ensures
        r == valid_page_spec(sys.cfg, sys@.pv.len() as int, pa),
{
    sys.cfg.initialized && pa / 4096 >= sys.cfg.first_managed_page
        && ((pa / 4096 - sys.cfg.first_managed_page) as usize) < sys.pv_head_table.len()
}

/// `pa_index(pa)` of a managed page.
pub fn pa_index(sys: &PmapSystem, pa: u32) -> (r: usize)
    requires
        managed(sys.cfg, sys@.pv.len() as int, pa),
    ensures
        r as int == pai(sys.cfg, pa),
        r < sys@.pv.len(),
{
    (pa / 4096 - sys.cfg.first_managed_page) as usize
}

/// Position of the first occurrence of `e` in `l` (the length if none).
pub open spec fn first_idx(l: Seq<PvEntry>, e: PvEntry) -> int
    decreases l.len(),
{
    if l.len() == 0 {
        0
    } else if l[0] == e {
        0
    } else {
        1 + first_idx(l.drop_first(), e)
    }
}

/// `l` without the first occurrence of `e` (unchanged if there is none).
pub open spec fn remove_first(l: Seq<PvEntry>, e: PvEntry) -> Seq<PvEntry> {
    if first_idx(l, e) < l.len() { l.remove(first_idx(l, e)) } else { l }
}

pub proof fn lemma_first_idx(l: Seq<PvEntry>, e: PvEntry)
    ensures
        0 <= first_idx(l, e) <= l.len(),
        forall|j: int| 0 <= j < first_idx(l, e) ==> l[j] != e,
        first_idx(l, e) < l.len() ==> l[first_idx(l, e)] == e,
        l.contains(e) ==> first_idx(l, e) < l.len(),
    decreases l.len(),
{
    if l.len() > 0 && l[0] != e {
        lemma_first_idx(l.drop_first(), e);
        assert forall|j: int| 0 <= j < first_idx(l, e) implies l[j] != e by {
            if j > 0 { assert(l[j] == l.drop_first()[j - 1]); }
        }
        if l.contains(e) {
            let k = choose|k: int| 0 <= k < l.len() && l[k] == e;
            assert(l.drop_first()[k - 1] == e);
        }
    }
}

/// Search a page's pv list for `e`: its first position, or the length.
fn pv_find(sys: &PmapSystem, pai: usize, e: PvEntry) -> (i: usize)
    requires
        pai < sys.pv_head_table.len(),
    ensures
        i == first_idx(sys@.pv[pai as int], e),
{
    let ghost l = sys@.pv[pai as int];
    proof { lemma_first_idx(l, e); }
    let mut i: usize = 0;
    while i < sys.pv_head_table[pai].len()
        invariant
            pai < sys.pv_head_table.len(),
            l == sys@.pv[pai as int],
            i <= l.len(),
            i <= first_idx(l, e),
            0 <= first_idx(l, e) <= l.len(),
            forall|j: int| 0 <= j < first_idx(l, e) ==> l[j] != e,
            first_idx(l, e) < l.len() ==> l[first_idx(l, e)] == e,
        decreases l.len() - i,
    {
        let x = sys.pv_head_table[pai][i];
        if x == e {
            return i;
        }
        i += 1;
    }
    i
}

// ─── Removing a range of entries ──────────────────────────────────

/// The pv lists and attribute bytes.
#[verifier::ext_equal]
pub ghost struct PvState {
    pub pv: Seq<Seq<PvEntry>>,
    pub attrs: Seq<u8>,
}

pub open spec fn pvs(s: SysView) -> PvState {
    PvState { pv: s.pv, attrs: s.attrs }
}

/// The address after `va`, wrapping at the top of the address space.
pub open spec fn next_va(va: u32) -> u32 {
    if va + 4096 > u32::MAX { (va + 4096 - 0x1_0000_0000int) as u32 } else { (va + 4096) as u32 }
}

/// Forgetting the mapping `pte` of `va` in pmap `p`: a managed page keeps
/// its modified/referenced bits and loses the pv entry.
pub open spec fn rr_step(t: PvState, cfg: PmapConfig, p: int, va: u32, pte: u32) -> PvState {
    let pa = frame_of(pte);
    if pte == 0 || !valid_page_spec(cfg, t.pv.len() as int, pa) {
        t
    } else {
        let i = pai(cfg, pa);
        PvState {
            attrs: t.attrs.update(i, t.attrs[i] | (#[verifier::truncate] ((pte & 0x60u32) as u8))),
            pv: t.pv.update(i, remove_first(t.pv[i], PvEntry { pmap: p as usize, va })),
        }
    }
}

/// The step does not panic: a mapped managed page lists the mapping.
pub open spec fn rr_step_ok(t: PvState, cfg: PmapConfig, p: int, va: u32, pte: u32) -> bool {
    let pa = frame_of(pte);
    pte == 0 || !valid_page_spec(cfg, t.pv.len() as int, pa)
        || t.pv[pai(cfg, pa)].contains(PvEntry { pmap: p as usize, va })
}

/// The steps for the entries `k..e` of `mem`, the first mapping `va`.
pub open spec fn rr_fold(t: PvState, cfg: PmapConfig, mem: Seq<u32>, p: int, va: u32, k: int, e: int) -> PvState
    decreases e - k,
{
    if k >= e { t } else { rr_fold(rr_step(t, cfg, p, va, rd(mem, k)), cfg, mem, p, next_va(va), k + 1, e) }
}

pub open spec fn rr_fold_ok(t: PvState, cfg: PmapConfig, mem: Seq<u32>, p: int, va: u32, k: int, e: int) -> bool
    decreases e - k,
{
    if k >= e {
        true
    } else {
        rr_step_ok(t, cfg, p, va, rd(mem, k))
            && rr_fold_ok(rr_step(t, cfg, p, va, rd(mem, k)), cfg, mem, p, next_va(va), k + 1, e)
    }
}

/// Number of non-zero entries among words `a..b`.
pub open spec fn nz_count(mem: Seq<u32>, a: int, b: int) -> int
    decreases b - a,
{
    if b <= a { 0 } else { nz_count(mem, a, b - 1) + if rd(mem, b - 1) != 0 { 1int } else { 0 } }
}

/// Number of wired entries among words `a..b`.
pub open spec fn wired_in(mem: Seq<u32>, a: int, b: int) -> int
    decreases b - a,
{
    if b <= a { 0 } else { wired_in(mem, a, b - 1) + if rd(mem, b - 1) & 0x200u32 != 0 { 1int } else { 0 } }
}

pub proof fn lemma_counts(mem: Seq<u32>, a: int, b: int, c: int)
    requires
        a <= b <= c,
    ensures
        0 <= wired_in(mem, a, b) <= nz_count(mem, a, b) <= nz_count(mem, a, c),
        wired_in(mem, a, b) <= wired_in(mem, a, c),
        nz_count(mem, a, b) <= b - a,
    decreases c - a,
{
    if c > b {
        lemma_counts(mem, a, b, c - 1);
    } else if b > a {
        lemma_counts(mem, a, b - 1, b - 1);
        lemma_wired_nonzero(rd(mem, b - 1));
    }
}

pub proof fn lemma_wired_nonzero(x: u32)
    by (bit_vector)
    ensures
        x & 0x200u32 != 0 ==> x != 0,
{
}

/// Memory with words `a..b` cleared.
pub open spec fn zero_range(mem: Seq<u32>, a: int, b: int) -> Seq<u32> {
    Seq::new(mem.len(), |i: int| if a <= i < b { 0u32 } else { mem[i] })
}

/// `pmap_remove_range(pmap, va, spte, epte)` does not panic: the kernel's
/// range lies in its virtual area, every mapped managed page lists the
/// mapping, and the counters stay in range.
pub open spec fn remove_range_ok(s: SysView, p: int, va: u32, spte: int, epte: int) -> bool {
    &&& 0 <= spte <= epte <= s.mem.len()
    &&& remove_range_fits(s, p, va, spte, epte)
}

/// The conditions of `remove_range_ok` other than the range lying in memory.
pub open spec fn remove_range_fits(s: SysView, p: int, va: u32, spte: int, epte: int) -> bool {
    &&& p == 0 ==> va >= s.cfg.kernel_virtual_start && va + (epte - spte) * 4096 <= s.cfg.kernel_virtual_end
    &&& rr_fold_ok(pvs(s), s.cfg, s.mem, p, va, spte, epte)
    &&& nz_count(s.mem, spte, epte) <= i32::MAX
    &&& s.pmaps[p].stats.resident_count - nz_count(s.mem, spte, epte) >= i32::MIN
    &&& s.pmaps[p].stats.wired_count - wired_in(s.mem, spte, epte) >= i32::MIN
}

/// The system after `pmap_remove_range(p, va, spte, epte)`: the entries are
/// cleared, their pages forget the mappings, and the pmap's counters drop.
pub open spec fn remove_range_spec(s: SysView, p: int, va: u32, spte: int, epte: int) -> SysView {
    let t = rr_fold(pvs(s), s.cfg, s.mem, p, va, spte, epte);
    let st = s.pmaps[p].stats;
    SysView {
        mem: zero_range(s.mem, spte, epte),
        pv: t.pv,
        attrs: t.attrs,
        pmaps: s.pmaps.update(p, PmapView {
            stats: PmapStatistics {
                resident_count: (st.resident_count - nz_count(s.mem, spte, epte)) as i32,
                wired_count: (st.wired_count - wired_in(s.mem, spte, epte)) as i32,
            },
            ..s.pmaps[p]
        }),
        ..s
    }
}

/// `pmap_remove_range(pmap, va, spte, epte)`: clear the entries `spte..epte`
/// (mapping consecutive pages from `va`), moving the modified/referenced
/// bits of managed pages to their attributes and removing the mappings from
/// their pv lists.
fn pmap_remove_range(sys: &mut PmapSystem, p: usize, va: u32, spte: usize, epte: usize)
    requires
        wf(old(sys)@),
        p < old(sys).pmaps.len(),
        remove_range_ok(old(sys)@, p as int, va, spte as int, epte as int),
    ensures
        final(sys)@ == remove_range_spec(old(sys)@, p as int, va, spte as int, epte as int),
        final(sys).pmaps.len() == old(sys).pmaps.len(),
        final(sys).pv_head_table.len() == old(sys).pv_head_table.len(),
        final(sys).phys_attributes.len() == old(sys).phys_attributes.len(),
        final(sys).mem.len() == old(sys).mem.len(),
        final(sys).cfg == old(sys).cfg,
{
    let ghost s0 = sys@;
    let ghost goal = rr_fold(pvs(s0), s0.cfg, s0.mem, p as int, va, spte as int, epte as int);
    proof { lemma_counts(s0.mem, spte as int, spte as int, epte as int); }
    let mut num_removed: i32 = 0;
    let mut num_unwired: i32 = 0;
    let mut cpte = spte;
    let mut cva = va;
    while cpte < epte
        invariant
            spte <= cpte <= epte <= s0.mem.len(),
            p < sys.pmaps.len(),
            sys.pmaps.len() == s0.pmaps.len(),
            sys.pv_head_table.len() == s0.pv.len(),
            sys.phys_attributes.len() == s0.pv.len(),
            sys@.mem == zero_range(s0.mem, spte as int, cpte as int),
            sys@.pmaps == s0.pmaps,
            sys@.cfg == s0.cfg,
            sys.cfg == s0.cfg,
            sys@.pt_free == s0.pt_free,
            sys@.pd_free == s0.pd_free,
            sys@.mapwindows == s0.mapwindows,
            sys@.pv.len() == s0.pv.len(),
            sys@.attrs.len() == s0.attrs.len(),
            s0.attrs.len() == s0.pv.len(),
            rr_fold(pvs(sys@), s0.cfg, s0.mem, p as int, cva, cpte as int, epte as int) == goal,
            rr_fold_ok(pvs(sys@), s0.cfg, s0.mem, p as int, cva, cpte as int, epte as int),
            num_removed == nz_count(s0.mem, spte as int, cpte as int),
            num_unwired == wired_in(s0.mem, spte as int, cpte as int),
            nz_count(s0.mem, spte as int, epte as int) <= i32::MAX,
        decreases epte - cpte,
    {
        let pte = sys.mem[cpte];
        assert(pte == rd(s0.mem, cpte as int));
        proof {
            lemma_counts(s0.mem, spte as int, cpte as int + 1, epte as int);
            lemma_wired_nonzero(pte);
        }
        let ghost t0 = pvs(sys@);
        if pte != 0 {
            num_removed += 1;
            if pte & INTEL_PTE_WIRED != 0 {
                num_unwired += 1;
            }
            let pa = pte_to_pa(pte);
            if valid_page(sys, pa) {
                let pai = pa_index(sys, pa);
                let a = sys.phys_attributes[pai];
                set_attr(sys, pai, a | (#[verifier::truncate] ((pte & PHYS_MOD_REF) as u8)));
                let e = PvEntry { pmap: p, va: cva };
                let i = pv_find(sys, pai, e);
                proof { lemma_first_idx(sys@.pv[pai as int], e); }
                pv_remove_at(sys, pai, i);
            }
            set_word(sys, cpte, 0);
        }
        assert(pvs(sys@) == rr_step(t0, s0.cfg, p as int, cva, pte));
        assert(sys@.mem =~= zero_range(s0.mem, spte as int, cpte as int + 1));
        cpte += 1;
        cva = cva.wrapping_add(4096);
    }
    let st = sys.pmaps[p].stats;
    set_stats(sys, p, PmapStatistics {
        resident_count: st.resident_count - num_removed,
        wired_count: st.wired_count - num_unwired,
    });
    proof {
        assert(sys@.pmaps =~= remove_range_spec(s0, p as int, va, spte as int, epte as int).pmaps);
        assert(sys@ =~= remove_range_spec(s0, p as int, va, spte as int, epte as int));
    }
}

/// Removing a range keeps the system well formed and the directories as
/// they were.
pub proof fn lemma_remove_range_wf(s: SysView, p: int, va: u32, spte: int, epte: int)
    requires
        wf(s),
        0 <= p < s.pmaps.len(),
    ensures
        wf(remove_range_spec(s, p, va, spte, epte)),
        remove_range_spec(s, p, va, spte, epte).pmaps.len() == s.pmaps.len(),
        forall|q: int| 0 <= q < s.pmaps.len() ==> (#[trigger] remove_range_spec(s, p, va, spte, epte).pmaps[q]).dir == s.pmaps[q].dir,
        remove_range_spec(s, p, va, spte, epte).mem.len() == s.mem.len(),
        remove_range_spec(s, p, va, spte, epte).cfg == s.cfg,
        remove_range_spec(s, p, va, spte, epte).pv.len() == s.pv.len(),
        forall|w: int| rd(s.mem, w) == 0 ==> #[trigger] rd(remove_range_spec(s, p, va, spte, epte).mem, w) == 0,
{
    lemma_rr_fold_lens(pvs(s), s.cfg, s.mem, p, va, spte, epte);
    lemma_wf_frame(s, remove_range_spec(s, p, va, spte, epte));
}

pub proof fn lemma_rr_fold_lens(t: PvState, cfg: PmapConfig, mem: Seq<u32>, p: int, va: u32, k: int, e: int)
    requires
        t.attrs.len() == t.pv.len(),
    ensures
        rr_fold(t, cfg, mem, p, va, k, e).pv.len() == t.pv.len(),
        rr_fold(t, cfg, mem, p, va, k, e).attrs.len() == t.pv.len(),
    decreases e - k,
{
    if k < e {
        lemma_rr_fold_lens(rr_step(t, cfg, p, va, rd(mem, k)), cfg, mem, p, next_va(va), k + 1, e);
    }
}

// ─── Removing and protecting address ranges ───────────────────────

/// End of the part of `[cur, e)` covered by the directory entry of `cur`.
pub open spec fn chunk_end(cur: u32, e: u32) -> u32 {
    let b = (cur as int / 0x40_0000 + 1) * 0x40_0000;
    if b > e { e } else { b as u32 }
}

pub proof fn lemma_chunk_end(cur: u32, e: u32)
    requires
        cur < e,
    ensures
        cur < chunk_end(cur, e) <= e,
        (chunk_end(cur, e) as int - 1) / 0x40_0000 == cur as int / 0x40_0000,
        pte_index(cur as int) + (chunk_end(cur, e) - cur) / 4096 <= 1024,
        cur % 4096 == 0 && e % 4096 == 0 ==> chunk_end(cur, e) % 4096 == 0,
{
    let q = cur as int / 0x40_0000;
    let l = chunk_end(cur, e) as int;
    assert(q * 0x40_0000 <= cur < (q + 1) * 0x40_0000) by (nonlinear_arith)
        requires q == cur as int / 0x40_0000, cur >= 0;
    assert(l - 1 >= q * 0x40_0000 && l - 1 < (q + 1) * 0x40_0000);
    assert((l - 1) / 0x40_0000 == q) by (nonlinear_arith)
        requires q * 0x40_0000 <= l - 1 < (q + 1) * 0x40_0000;
    let r = cur as int - q * 0x40_0000;
    assert(pte_index(cur as int) == r / 4096) by (nonlinear_arith)
        requires r == cur - q * 0x40_0000, 0 <= r < 0x40_0000, cur >= 0;
    assert(r / 4096 + (l - cur) / 4096 <= 1024) by (nonlinear_arith)
        requires 0 <= r, l - cur <= 0x40_0000 - r, 0 <= l - cur;
    if cur % 4096 == 0 && e % 4096 == 0 {
        assert(((q + 1) * 0x40_0000) % 4096 == 0) by (nonlinear_arith) requires q >= 0;
    }
}

/// The system after removing the part `[cur, l)` of one directory entry.
pub open spec fn remove_chunk(s: SysView, p: int, cur: u32, l: u32) -> SysView {
    match pte_word(s, p, cur) {
        Some(w) => remove_range_spec(s, p, cur, w, w + (l - cur) / 4096),
        None => s,
    }
}

/// The system after `pmap_remove(p, cur, e)`.
pub open spec fn remove_spec(s: SysView, p: int, cur: u32, e: u32) -> SysView
    decreases e - cur,
{
    if cur >= e {
        s
    } else {
        let l = chunk_end(cur, e);
        proof { lemma_chunk_end(cur, e); }
        remove_spec(remove_chunk(s, p, cur, l), p, l, e)
    }
}

/// `pmap_remove(p, cur, e)` does not panic.
pub open spec fn remove_ok(s: SysView, p: int, cur: u32, e: u32) -> bool
    decreases e - cur,
{
    if cur >= e {
        true
    } else {
        let l = chunk_end(cur, e);
        proof { lemma_chunk_end(cur, e); }
        &&& pte_word(s, p, cur) matches Some(w) ==> remove_range_fits(s, p, cur, w, w + (l - cur) / 4096)
        &&& remove_ok(remove_chunk(s, p, cur, l), p, l, e)
    }
}

/// A chunk's entries lie in one page table inside memory.
pub proof fn lemma_chunk_range(s: SysView, p: int, cur: u32, e: u32)
    requires
        wf(s),
        0 <= p < s.pmaps.len(),
        cur < e,
        pte_word(s, p, cur) is Some,
    ensures
        pte_word(s, p, cur) matches Some(w) && 0 <= w && w + (chunk_end(cur, e) - cur) / 4096 <= s.mem.len(),
{
    lemma_chunk_end(cur, e);
    assert(dir_ok(s, s.pmaps[p].dir));
    let pde = s.pmaps[p].dir[pde_index(cur as int)];
    lemma_frame_bits(pde, 0);
}

pub proof fn lemma_remove_chunk_wf(s: SysView, p: int, cur: u32, l: u32)
    requires
        wf(s),
        0 <= p < s.pmaps.len(),
    ensures
        wf(remove_chunk(s, p, cur, l)),
        remove_chunk(s, p, cur, l).pmaps.len() == s.pmaps.len(),
        forall|q: int| 0 <= q < s.pmaps.len() ==> (#[trigger] remove_chunk(s, p, cur, l).pmaps[q]).dir == s.pmaps[q].dir,
        remove_chunk(s, p, cur, l).mem.len() == s.mem.len(),
        remove_chunk(s, p, cur, l).cfg == s.cfg,
        remove_chunk(s, p, cur, l).pv.len() == s.pv.len(),
        forall|w: int| rd(s.mem, w) == 0 ==> #[trigger] rd(remove_chunk(s, p, cur, l).mem, w) == 0,
{
    if let Some(w) = pte_word(s, p, cur) {
        lemma_remove_range_wf(s, p, cur, w, w + (l - cur) / 4096);
    }
}

/// No translation for `va` in pmap `p`: no table, or a zero entry.
pub open spec fn unmapped(s: SysView, p: int, va: u32) -> bool {
    match pte_word(s, p, va) {
        None => true,
        Some(w) => rd(s.mem, w) == 0,
    }
}

pub proof fn lemma_unmapped_extract(s: SysView, p: int, va: u32)
    requires
        unmapped(s, p, va),
    ensures
        extract_spec(s, p, va) == 0,
{
    assert(0u32 & 1u32 == 0) by (bit_vector);
}

/// Addresses of one chunk share a directory entry, and their entries are
/// consecutive.
pub proof fn lemma_same_block(cur: u32, l: u32, va: u32)
    requires
        cur % 4096 == 0,
        l % 4096 == 0,
        cur <= va < l,
        (l as int - 1) / 0x40_0000 == cur as int / 0x40_0000,
    ensures
        pde_index(va as int) == pde_index(cur as int),
        pte_index(va as int) - pte_index(cur as int) == (va - cur) / 4096,
        (va - cur) / 4096 < (l - cur) / 4096,
{
    let q = cur as int / 0x40_0000;
    assert(va as int / 0x40_0000 == q) by (nonlinear_arith)
        requires cur <= va <= l - 1, (l - 1) / 0x40_0000 == q, q == cur / 0x40_0000, cur >= 0;
    let rc = cur as int - q * 0x40_0000;
    let rv = va as int - q * 0x40_0000;
    assert(0 <= rc < 0x40_0000 && 0 <= rv < 0x40_0000) by (nonlinear_arith)
        requires q == cur / 0x40_0000, q == va / 0x40_0000, rc == cur - q * 0x40_0000, rv == va - q * 0x40_0000, cur >= 0, va >= 0;
    assert(pte_index(cur as int) == rc / 4096 && pte_index(va as int) == rv / 4096) by (nonlinear_arith)
        requires rc == cur - q * 0x40_0000, rv == va - q * 0x40_0000, 0 <= rc < 0x40_0000, 0 <= rv < 0x40_0000, q >= 0;
    assert(rv / 4096 - rc / 4096 == (va - cur) / 4096) by (nonlinear_arith)
        requires rc % 4096 == 0, rv - rc == va - cur, 0 <= rc <= rv;
    assert((va - cur) / 4096 < (l - cur) / 4096) by (nonlinear_arith)
        requires (l - cur) % 4096 == 0, 0 <= va - cur < l - cur;
    assert((l - cur) % 4096 == 0) by (nonlinear_arith) requires cur % 4096 == 0, l % 4096 == 0, cur <= l;
}

/// Removing the chunk `[cur, l)` leaves each of its addresses unmapped.
pub proof fn lemma_chunk_clears(s: SysView, p: int, cur: u32, e: u32, va: u32)
    requires
        wf(s),
        0 <= p < s.pmaps.len(),
        cur % 4096 == 0,
        e % 4096 == 0,
        cur <= va < chunk_end(cur, e),
    ensures
        unmapped(remove_chunk(s, p, cur, chunk_end(cur, e)), p, va),
{
    let l = chunk_end(cur, e);
    lemma_chunk_end(cur, e);
    lemma_same_block(cur, l, va);
    lemma_remove_chunk_wf(s, p, cur, l);
    if let Some(w0) = pte_word(s, p, cur) {
        lemma_chunk_range(s, p, cur, e);
        let s1 = remove_chunk(s, p, cur, l);
        assert(s1.pmaps[p].dir == s.pmaps[p].dir);
    }
}

/// Removing never maps anything: unmapped addresses of any pmap stay so.
pub proof fn lemma_remove_keeps_unmapped(s: SysView, p: int, cur: u32, e: u32, q: int, va: u32)
    requires
        wf(s),
        0 <= p < s.pmaps.len(),
        0 <= q < s.pmaps.len(),
        unmapped(s, q, va),
    ensures
        unmapped(remove_spec(s, p, cur, e), q, va),
    decreases e - cur,
{
    if cur < e {
        let l = chunk_end(cur, e);
        lemma_chunk_end(cur, e);
        lemma_remove_chunk_wf(s, p, cur, l);
        let s1 = remove_chunk(s, p, cur, l);
        assert(s1.pmaps[q].dir == s.pmaps[q].dir);
        lemma_remove_keeps_unmapped(s1, p, l, e, q, va);
    }
}

/// Law: after `pmap_remove(p, s, e)` with page-aligned bounds, every address
/// of `[s, e)` is unmapped in `p`, so `pmap_extract` gives 0 for it.
pub proof fn law_remove_then_extract(s: SysView, p: int, st: u32, e: u32, va: u32)
    requires
        wf(s),
        0 <= p < s.pmaps.len(),
        st % 4096 == 0,
        e % 4096 == 0,
        st <= va < e,
    ensures
        unmapped(remove_spec(s, p, st, e), p, va),
        extract_spec(remove_spec(s, p, st, e), p, va) == 0,
    decreases e - st,
{
    let l = chunk_end(st, e);
    lemma_chunk_end(st, e);
    lemma_remove_chunk_wf(s, p, st, l);
    let s1 = remove_chunk(s, p, st, l);
    if va >= l {
        law_remove_then_extract(s1, p, l, e, va);
    } else {
        lemma_chunk_clears(s, p, st, e, va);
        lemma_remove_keeps_unmapped(s1, p, l, e, p, va);
    }
    lemma_unmapped_extract(remove_spec(s, p, st, e), p, va);
}

/// `pmap_remove(pmap, s, e)`: remove the mappings of `[s, e)`, one
/// directory entry's worth at a time.
pub fn pmap_remove(sys: &mut PmapSystem, p: usize, s: u32, e: u32)
    requires
        wf(old(sys)@),
        p < old(sys).pmaps.len(),
        remove_ok(old(sys)@, p as int, s, e),
    ensures
        final(sys)@ == remove_spec(old(sys)@, p as int, s, e),
        wf(final(sys)@),
{
    let ghost s0 = sys@;
    let mut cur = s;
    while cur < e
        invariant
            wf(sys@),
            p < sys.pmaps.len(),
            remove_ok(sys@, p as int, cur, e),
            remove_spec(sys@, p as int, cur, e) == remove_spec(s0, p as int, s, e),
        decreases e - cur,
    {
        let l: u32 = if cur >= 0xFFC0_0000 {
            e
        } else {
            let x = cur + PDE_MAPPED_SIZE;
            let b = x & !(PDE_MAPPED_SIZE - 1);
            proof { lemma_chunk_bits(cur, x); }
            if b > e { e } else { b }
        };
        proof { lemma_chunk_end(cur, e); }
        assert(l == chunk_end(cur, e));
        let ghost before = sys@;
        match pmap_pte(sys, p, cur) {
            Some(w) => {
                proof { lemma_chunk_range(before, p as int, cur, e); }
                let n = intel_btop(l - cur);
                pmap_remove_range(sys, p, cur, w, w + n as usize);
            },
            None => {},
        }
        proof { lemma_remove_chunk_wf(before, p as int, cur, l); }
        assert(sys@ == remove_chunk(before, p as int, cur, l));
        cur = l;
    }
}

/// The next directory boundary after `cur`, by bit operations.
pub proof fn lemma_chunk_bits(cur: u32, x: u32)
    by (bit_vector)
    requires
        cur < 0xFFC0_0000u32,
        x == cur + 0x40_0000u32,
    ensures
        x & !0x3F_FFFFu32 == (cur / 0x40_0000u32 + 1u32) * 0x40_0000u32,
{
}

/// A present entry loses its write permission; an absent one is kept.
pub open spec fn wp_word(x: u32) -> u32 {
    if x & 1u32 != 0 { x & !2u32 } else { x }
}

/// Memory with the write bit cleared in the present entries of `a..b`.
pub open spec fn wp_range(mem: Seq<u32>, a: int, b: int) -> Seq<u32> {
    Seq::new(mem.len(), |i: int| if a <= i < b { wp_word(mem[i]) } else { mem[i] })
}

/// Write-protecting the part `[cur, l)` of one directory entry.
pub open spec fn wp_chunk(s: SysView, p: int, cur: u32, l: u32) -> SysView {
    match pte_word(s, p, cur) {
        Some(w) => SysView { mem: wp_range(s.mem, w, w + (l - cur) / 4096), ..s },
        None => s,
    }
}

/// Write-protecting `[cur, e)` in pmap `p`.
pub open spec fn wp_spec(s: SysView, p: int, cur: u32, e: u32) -> SysView
    decreases e - cur,
{
    if cur >= e {
        s
    } else {
        let l = chunk_end(cur, e);
        proof { lemma_chunk_end(cur, e); }
        wp_spec(wp_chunk(s, p, cur, l), p, l, e)
    }
}

/// Protections that only read (and execute): the range is write-protected.
pub open spec fn prot_read_only(prot: i32) -> bool {
    prot == 1 || prot == 5
}

/// Protections that allow writing: nothing to do.
pub open spec fn prot_writable(prot: i32) -> bool {
    prot == 3 || prot == 7
}

/// The system after `pmap_protect(p, s, e, prot)`: write-protected for a
/// read-only protection, unchanged for a writable one, removed otherwise.
pub open spec fn protect_spec(s: SysView, p: int, cur: u32, e: u32, prot: i32) -> SysView {
    if prot_read_only(prot) {
        wp_spec(s, p, cur, e)
    } else if prot_writable(prot) {
        s
    } else {
        remove_spec(s, p, cur, e)
    }
}

/// Law: protecting a range with a protection that allows reading and
/// writing (`VM_PROT_READ | VM_PROT_WRITE`, or `VM_PROT_ALL`) takes nothing
/// away: the system is left as it was, and every address of every pmap
/// still translates to the same physical address.
pub proof fn law_protect_writable_keeps_everything(s: SysView, p: int, sva: u32, eva: u32)
    ensures
        protect_spec(s, p, sva, eva, VM_PROT_READ | VM_PROT_WRITE) == s,
        protect_spec(s, p, sva, eva, VM_PROT_ALL) == s,
        forall|q: int, va: u32| extract_spec(#[trigger] protect_spec(s, p, sva, eva, VM_PROT_ALL), q, va) == extract_spec(s, q, va),
        forall|q: int, va: u32| extract_spec(#[trigger] protect_spec(s, p, sva, eva, VM_PROT_READ | VM_PROT_WRITE), q, va)
            == extract_spec(s, q, va),
{
    lemma_prot_values();
}

/// The combined protections.
pub proof fn lemma_prot_values()
    by (bit_vector)
    ensures
        1i32 | 4i32 == 5i32,
        1i32 | 2i32 == 3i32,
{
}

/// Clearing the write bit keeps the frame and the valid bit and leaves no
/// write permission.
pub proof fn lemma_wp_bits(x: u32)
    by (bit_vector)
    ensures
        (x & !2u32) & 0xFFFF_F000u32 == x & 0xFFFF_F000u32,
        ((x & !2u32) & 1u32 != 0) == (x & 1u32 != 0),
        (x & !2u32) & 2u32 == 0,
{
}

pub proof fn lemma_wp_chunk_frame(s: SysView, p: int, cur: u32, l: u32)
    ensures
        wp_chunk(s, p, cur, l).pmaps == s.pmaps,
        wp_chunk(s, p, cur, l).mem.len() == s.mem.len(),
        wp_chunk(s, p, cur, l).pv == s.pv,
        wp_chunk(s, p, cur, l).attrs == s.attrs,
        wp_chunk(s, p, cur, l).pt_free == s.pt_free,
        wp_chunk(s, p, cur, l).cfg == s.cfg,
        forall|w: int| #[trigger] rd(wp_chunk(s, p, cur, l).mem, w) == rd(s.mem, w)
            || rd(wp_chunk(s, p, cur, l).mem, w) == wp_word(rd(s.mem, w)),
{
}

/// `pmap_protect(pmap, s, e, prot)`: lower the protection of `[s, e)`.
pub fn pmap_protect(sys: &mut PmapSystem, p: usize, s: u32, e: u32, prot: i32)
    requires
        wf(old(sys)@),
        p < old(sys).pmaps.len(),
        !prot_read_only(prot) && !prot_writable(prot) ==> remove_ok(old(sys)@, p as int, s, e),
    ensures
        final(sys)@ == protect_spec(old(sys)@, p as int, s, e, prot),
        wf(final(sys)@),
{
    proof { lemma_prot_values(); }
    if prot == VM_PROT_READ || prot == (VM_PROT_READ | VM_PROT_EXECUTE) {
    } else if prot == (VM_PROT_READ | VM_PROT_WRITE) || prot == VM_PROT_ALL {
        return;
    } else {
        pmap_remove(sys, p, s, e);
        return;
    }
    let ghost s0 = sys@;
    let mut cur = s;
    while cur < e
        invariant
            wf(sys@),
            p < sys.pmaps.len(),
            wp_spec(sys@, p as int, cur, e) == wp_spec(s0, p as int, s, e),
        decreases e - cur,
    {
        let l: u32 = if cur >= 0xFFC0_0000 {
            e
        } else {
            let x = cur + PDE_MAPPED_SIZE;
            let b = x & !(PDE_MAPPED_SIZE - 1);
            proof { lemma_chunk_bits(cur, x); }
            if b > e { e } else { b }
        };
        proof { lemma_chunk_end(cur, e); }
        assert(l == chunk_end(cur, e));
        let ghost before = sys@;
        match pmap_pte(sys, p, cur) {
            Some(w) => {
                proof { lemma_chunk_range(before, p as int, cur, e); }
                let n = intel_btop(l - cur) as usize;
                let mut k: usize = 0;
                while k < n
                    invariant
                        k <= n,
                        w + n <= sys.mem.len(),
                        p < sys.pmaps.len(),
                        sys.pmaps.len() == before.pmaps.len(),
                        sys@ == (SysView { mem: wp_range(before.mem, w as int, w + k), ..before }),
                    decreases n - k,
                {
                    let x = sys.mem[w + k];
                    if x & INTEL_PTE_VALID != 0 {
                        set_word(sys, w + k, x & !INTEL_PTE_WRITE);
                    }
                    proof { assert(sys@.mem =~= wp_range(before.mem, w as int, w + k + 1)); }
                    k += 1;
                }
                proof { assert(sys@ =~= wp_chunk(before, p as int, cur, l)); }
            },
            None => {},
        }
        proof {
            lemma_wp_chunk_frame(before, p as int, cur, l);
            lemma_wf_frame(before, sys@);
        }
        cur = l;
    }
}

/// The write-protect pass keeps every pmap's directory, every entry's frame
/// and valid bit, and never gives write permission.
pub proof fn lemma_wp_spec_frame(s: SysView, p: int, cur: u32, e: u32)
    ensures
        wp_spec(s, p, cur, e).pmaps == s.pmaps,
        wp_spec(s, p, cur, e).mem.len() == s.mem.len(),
        forall|w: int| #![trigger rd(wp_spec(s, p, cur, e).mem, w)] {
            let x = rd(s.mem, w);
            let y = rd(wp_spec(s, p, cur, e).mem, w);
            &&& frame_of(y) == frame_of(x)
            &&& (y & 1u32 != 0) == (x & 1u32 != 0)
            &&& (x & 1u32 == 0 || x & 2u32 == 0) ==> (y & 1u32 == 0 || y & 2u32 == 0)
        },
    decreases e - cur,
{
    if cur < e {
        let l = chunk_end(cur, e);
        lemma_chunk_end(cur, e);
        let s1 = wp_chunk(s, p, cur, l);
        lemma_wp_chunk_frame(s, p, cur, l);
        lemma_wp_spec_frame(s1, p, l, e);
        assert forall|w: int| #![trigger rd(wp_spec(s, p, cur, e).mem, w)] {
            let x = rd(s.mem, w);
            let y = rd(wp_spec(s, p, cur, e).mem, w);
            &&& frame_of(y) == frame_of(x)
            &&& (y & 1u32 != 0) == (x & 1u32 != 0)
            &&& (x & 1u32 == 0 || x & 2u32 == 0) ==> (y & 1u32 == 0 || y & 2u32 == 0)
        } by {
            let x = rd(s.mem, w);
            lemma_wp_bits(x);
            assert(rd(s1.mem, w) == x || rd(s1.mem, w) == wp_word(x));
            assert(rd(wp_spec(s1, p, l, e).mem, w) == rd(wp_spec(s, p, cur, e).mem, w));
        }
    }
}

/// Law: `pmap_protect(p, s, e, prot)` with a read-only protection keeps
/// every translation of every address, and with page-aligned bounds leaves
/// no address of `[s, e)` writable.
pub proof fn law_protect_read_only(s: SysView, p: int, st: u32, e: u32, prot: i32, va: u32)
    requires
        wf(s),
        0 <= p < s.pmaps.len(),
        prot_read_only(prot),
    ensures
        extract_spec(protect_spec(s, p, st, e, prot), p, va) == extract_spec(s, p, va),
        st % 4096 == 0 && e % 4096 == 0 && st <= va < e ==>
            !writable(protect_spec(s, p, st, e, prot), p, va),
{
    lemma_wp_spec_frame(s, p, st, e);
    let r = wp_spec(s, p, st, e);
    if let Some(w) = pte_word(s, p, va) {
        assert(rd(r.mem, w) == rd(r.mem, w));
    }
    if st % 4096 == 0 && e % 4096 == 0 && st <= va < e {
        lemma_wp_clears(s, p, st, e, va);
    }
}

/// May `va` be written through pmap `p`?
pub open spec fn writable(s: SysView, p: int, va: u32) -> bool {
    match pte_word(s, p, va) {
        None => false,
        Some(w) => rd(s.mem, w) & 1u32 != 0 && rd(s.mem, w) & 2u32 != 0,
    }
}

pub proof fn lemma_wp_clears(s: SysView, p: int, st: u32, e: u32, va: u32)
    requires
        wf(s),
        0 <= p < s.pmaps.len(),
        st % 4096 == 0,
        e % 4096 == 0,
        st <= va < e,
    ensures
        !writable(wp_spec(s, p, st, e), p, va),
    decreases e - st,
{
    let l = chunk_end(st, e);
    lemma_chunk_end(st, e);
    let s1 = wp_chunk(s, p, st, l);
    lemma_wp_chunk_frame(s, p, st, l);
    lemma_wf_frame(s, s1);
    if va >= l {
        lemma_wp_clears(s1, p, l, e, va);
    } else {
        lemma_same_block(st, l, va);
        if let Some(w0) = pte_word(s, p, st) {
            lemma_chunk_range(s, p, st, e);
            if let Some(w) = pte_word(s, p, va) {
                lemma_wp_bits(rd(s.mem, w));
                assert(rd(s1.mem, w) == wp_word(rd(s.mem, w)));
            }
        }
        lemma_wp_spec_frame(s1, p, l, e);
        if let Some(w) = pte_word(s1, p, va) {
            assert(rd(wp_spec(s1, p, l, e).mem, w) == rd(wp_spec(s1, p, l, e).mem, w));
        }
    }
}

// ─── Entering mappings ────────────────────────────────────────────

/// Whether `pa` is ordinary physical memory (cacheable): a VM page once
/// the page table is ready, else below the end of the direct map.
pub open spec fn physmem_spec(s: SysView, pa: u32) -> bool {
    if s.cfg.vm_page_ready { managed(s.cfg, s.pv.len() as int, pa) } else { pa < s.cfg.directmap_end }
}

/// The entry `pmap_enter` writes: frame, valid, user for non-kernel pmaps,
/// writable when `prot` allows writing, uncached for device memory on a
/// 486 or later, wired when asked.
pub open spec fn template_spec(cfg: PmapConfig, p: int, pa: u32, prot: i32, wired: bool, physmem: bool) -> u32 {
    let t0 = frame_of(pa) | 1u32;
    let t1 = if p != 0 { t0 | 4u32 } else { t0 };
    let t2 = if prot & 2i32 != 0 { t1 | 2u32 } else { t1 };
    let t3 = if cfg.cpu_type >= 17 && !physmem { t2 | 0x10u32 | 0x8u32 } else { t2 };
    if wired { t3 | 0x200u32 } else { t3 }
}

/// The template keeps the frame of `pa`, is valid, and carries the write
/// and wired bits exactly as asked.
pub proof fn lemma_template(pa: u32, user: bool, write: bool, nc: bool, wired: bool)
    by (bit_vector)
    ensures ({
        let t0 = (pa & 0xFFFF_F000u32) | 1u32;
        let t1 = if user { t0 | 4u32 } else { t0 };
        let t2 = if write { t1 | 2u32 } else { t1 };
        let t3 = if nc { t2 | 0x10u32 | 0x8u32 } else { t2 };
        let t = if wired { t3 | 0x200u32 } else { t3 };
        &&& t & 0xFFFF_F000u32 == pa & 0xFFFF_F000u32
        &&& (t | 0x40u32) & 0xFFFF_F000u32 == pa & 0xFFFF_F000u32
        &&& t & 1u32 != 0
        &&& (t | 0x40u32) & 1u32 != 0
        &&& (t & 2u32 != 0) == write
        &&& (t & 0x200u32 != 0) == wired
        &&& ((t | 0x40u32) & 0x200u32 != 0) == wired
        &&& t != 0
    }),
{
}

/// `pmap_enter_template`: the entry for mapping `pa` in pmap `p`.
fn pmap_enter_template(cfg: PmapConfig, p: usize, pa: u32, prot: i32, wired: bool, is_physmem: bool) -> (t: u32)
    ensures
        t == template_spec(cfg, p as int, pa, prot, wired, is_physmem),
{
    let mut t = pa_to_pte(pa) | INTEL_PTE_VALID;
    if p != 0 {
        t = t | INTEL_PTE_USER;
    }
    if (prot & VM_PROT_WRITE) != 0 {
        t = t | INTEL_PTE_WRITE;
    }
    if cfg.cpu_type >= CPU_TYPE_I486 && !is_physmem {
        t = t | INTEL_PTE_NCACHE | INTEL_PTE_WTHRU;
    }
    if wired {
        t = t | INTEL_PTE_WIRED;
    }
    t
}

/// Memory with the page at physical address `f` cleared.
pub open spec fn zero_page(mem: Seq<u32>, f: u32) -> Seq<u32> {
    zero_range(mem, f as int / 4, f as int / 4 + 1024)
}

/// The system after `pmap_expand(p, v)` when it had to add a page table:
/// the last free page is cleared and entered in the directory.
pub open spec fn expand_spec(s: SysView, p: int, v: u32) -> SysView {
    if pte_word(s, p, v) is Some {
        s
    } else {
        let f = s.pt_free.last();
        SysView {
            mem: zero_page(s.mem, f),
            pmaps: s.pmaps.update(p, PmapView {
                dir: s.pmaps[p].dir.update(pde_index(v as int), frame_of(f) | 1u32 | 4u32 | 2u32),
                ..s.pmaps[p]
            }),
            pt_free: s.pt_free.drop_last(),
            ..s
        }
    }
}

/// Law: expanding is idempotent.  Once an expansion for `v` has left a
/// page-table entry for it (the page table existed, or a free page was
/// taken for it), a second expansion takes no page, changes nothing and
/// finds the same entry.
pub proof fn law_expand_idempotent(s: SysView, p: int, v: u32)
    requires
        pte_word(expand_spec(s, p, v), p, v) is Some,
    ensures
        expand_spec(expand_spec(s, p, v), p, v) == expand_spec(s, p, v),
        pte_word(expand_spec(expand_spec(s, p, v), p, v), p, v) == pte_word(expand_spec(s, p, v), p, v),
        expand_spec(expand_spec(s, p, v), p, v).pt_free == expand_spec(s, p, v).pt_free,
{
}

/// A free page entered in a directory is present and keeps its frame.
pub proof fn lemma_new_pde(f: u32)
    by (bit_vector)
    ensures
        ((f & 0xFFFF_F000u32) | 1u32 | 4u32 | 2u32) & 1u32 != 0,
        ((f & 0xFFFF_F000u32) | 1u32 | 4u32 | 2u32) & 0xFFFF_F000u32 == f & 0xFFFF_F000u32,
{
}

/// A state that differs from a well-formed one only in the contents (not
/// the size) of memory, the pv lists and attributes, and the counters.
pub proof fn lemma_wf_frame(s: SysView, s2: SysView)
    requires
        wf(s),
        s2.pmaps.len() == s.pmaps.len(),
        forall|q: int| 0 <= q < s.pmaps.len() ==> #[trigger] s2.pmaps[q].dir == s.pmaps[q].dir,
        s2.mem.len() == s.mem.len(),
        s2.pt_free == s.pt_free,
        s2.attrs.len() == s2.pv.len(),
    ensures
        wf(s2),
{
    assert forall|q: int| 0 <= q < s2.pmaps.len() implies dir_ok(s2, #[trigger] s2.pmaps[q].dir) by {
        assert(dir_ok(s, s.pmaps[q].dir));
    }
    assert forall|i: int| 0 <= i < s2.pt_free.len() implies frame_ok(s2, #[trigger] s2.pt_free[i]) by {
        assert(frame_ok(s, s.pt_free[i]));
    }
}

/// Adding a page table keeps the system well formed, and afterwards the
/// entry for `v` has a word inside memory.
pub proof fn lemma_expand(s: SysView, p: int, v: u32)
    requires
        wf(s),
        0 <= p < s.pmaps.len(),
        pte_word(s, p, v) is None ==> s.pmaps[p].dir.len() != 0 && s.pt_free.len() > 0,
    ensures
        wf(expand_spec(s, p, v)),
        expand_spec(s, p, v).pmaps.len() == s.pmaps.len(),
        expand_spec(s, p, v).mem.len() == s.mem.len(),
        expand_spec(s, p, v).cfg == s.cfg,
        expand_spec(s, p, v).pv == s.pv,
        expand_spec(s, p, v).attrs == s.attrs,
        forall|q: int| 0 <= q < s.pmaps.len() ==> (#[trigger] expand_spec(s, p, v).pmaps[q]).stats == s.pmaps[q].stats,
        pte_word(expand_spec(s, p, v), p, v) matches Some(w) && 0 <= w < s.mem.len(),
{
    assert(dir_ok(s, s.pmaps[p].dir));
    if let Some(w) = pte_word(s, p, v) {
        let pde = s.pmaps[p].dir[pde_index(v as int)];
        lemma_frame_bits(pde, 0);
    } else {
        let f = s.pt_free.last();
        assert(frame_ok(s, s.pt_free[s.pt_free.len() - 1]));
        lemma_new_pde(f);
        lemma_frame_bits(f, 0);
        let s1 = expand_spec(s, p, v);
        assert forall|q: int| 0 <= q < s1.pmaps.len() implies dir_ok(s1, #[trigger] s1.pmaps[q].dir) by {
            assert(dir_ok(s, s.pmaps[q].dir));
            if q == p {
                assert forall|j: int| 0 <= j < s1.pmaps[q].dir.len() && #[trigger] s1.pmaps[q].dir[j] & 1u32 != 0
                    implies frame_ok(s1, frame_of(s1.pmaps[q].dir[j])) by {
                    if j != pde_index(v as int) {
                        assert(s1.pmaps[q].dir[j] == s.pmaps[q].dir[j]);
                    }
                }
            }
        }
        assert forall|k: int| 0 <= k < s1.pt_free.len() implies frame_ok(s1, #[trigger] s1.pt_free[k]) by {
            assert(frame_ok(s, s.pt_free[k]));
        }
    }
}

/// Law: after a successful `pmap_enter(p, v, pa, ..)`, `pmap_extract(p, v)`
/// gives the frame of `pa` plus the offset of `v` within its page.
pub proof fn law_enter_then_extract(s: SysView, p: int, v: u32, pa: u32, prot: i32, wired: bool)
    requires
        wf(s),
        enter_ok(s, p, v, pa, prot, wired),
        !(pte_word(s, p, v) is None && s.pt_free.len() == 0),
    ensures
        extract_spec(enter_spec(s, p, v, pa, prot, wired), p, v) == frame_of(pa) + v % 4096,
{
    lemma_expand(s, p, v);
    let s1 = expand_spec(s, p, v);
    let w = match pte_word(s1, p, v) { Some(w) => w, None => 0 };
    let cur = rd(s1.mem, w);
    let phys = physmem_spec(s1, pa);
    lemma_template(pa, p != 0, prot & 2i32 != 0, s1.cfg.cpu_type >= 17 && !phys, wired);
    let t = template_spec(s1.cfg, p, pa, prot, wired, phys);
    lemma_frame_offset(t, v);
    lemma_frame_offset(t | 0x40u32, v);
    lemma_frame_offset(pa, v);
    let r = enter_spec(s, p, v, pa, prot, wired);
    assert(r.pmaps[p].dir == s1.pmaps[p].dir);
    assert(r.mem.len() == s1.mem.len());
}

/// `pmap_expand(pmap, v)`: make sure a page table covers `v`, taking a
/// free page for it if needed, and give the word of `v`'s entry.  `None`
/// when a table is needed and no free page is left (nothing changes then;
/// the caller waits for memory and tries again).
fn pmap_expand(sys: &mut PmapSystem, p: usize, v: u32) -> (r: Option<usize>)
    requires
        wf(old(sys)@),
        p < old(sys).pmaps.len(),
        pte_word(old(sys)@, p as int, v) is None ==> p != 0 && old(sys)@.pmaps[p as int].dir.len() != 0,
    ensures
        r is None <==> pte_word(old(sys)@, p as int, v) is None && old(sys)@.pt_free.len() == 0,
        r is None ==> final(sys)@ == old(sys)@,
        r is Some ==> final(sys)@ == expand_spec(old(sys)@, p as int, v),
        r matches Some(w) ==> pte_word(final(sys)@, p as int, v) == Some(w as int) && w < final(sys).mem.len(),
        wf(final(sys)@),
        final(sys).pmaps.len() == old(sys).pmaps.len(),
{
    if let Some(w) = pmap_pte(sys, p, v) {
        return Some(w);
    }
    if sys.pt_free.len() == 0 {
        return None;
    }
    let ghost s0 = sys@;
    let f = sys.pt_free.pop().unwrap();
    proof {
        assert(sys@ =~= SysView { pt_free: s0.pt_free.drop_last(), ..s0 });
        assert(frame_ok(s0, s0.pt_free[s0.pt_free.len() - 1]));
    }
    let base: usize = (f / 4) as usize;
    let mut i: usize = 0;
    while i < 1024
        invariant
            i <= 1024,
            base + 1024 <= sys.mem.len(),
            base == f / 4,
            p < sys.pmaps.len(),
            sys.pmaps.len() == s0.pmaps.len(),
            sys.cfg == s0.cfg,
            sys@ == (SysView {
                mem: zero_range(s0.mem, base as int, base + i),
                pt_free: s0.pt_free.drop_last(),
                ..s0
            }),
        decreases 1024 - i,
    {
        set_word(sys, base + i, 0);
        proof { assert(sys@.mem =~= zero_range(s0.mem, base as int, base + i + 1)); }
        i += 1;
    }
    let pdi = lin2pdenum(v as usize) as usize;
    proof { assert(dir_ok(s0, s0.pmaps[p as int].dir)); }
    set_pde(sys, p, pdi, pa_to_pte(f) | INTEL_PTE_VALID | INTEL_PTE_USER | INTEL_PTE_WRITE);
    proof {
        let s1 = expand_spec(s0, p as int, v);
        assert(sys@.pmaps =~= s1.pmaps);
        assert(sys@ =~= s1);
        lemma_expand(s0, p as int, v);
    }
    pmap_pte(sys, p, v)
}

/// The pv list of a page after `pmap_enter` records a new mapping: the
/// mapping becomes the head of an empty list, else the second entry.
pub open spec fn pv_insert(l: Seq<PvEntry>, e: PvEntry) -> Seq<PvEntry> {
    if l.len() == 0 { seq![e] } else { l.insert(1, e) }
}

/// The system after a successful `pmap_enter(p, v, pa, prot, wired)`.
pub open spec fn enter_spec(s: SysView, p: int, v: u32, pa: u32, prot: i32, wired: bool) -> SysView {
    let s1 = expand_spec(s, p, v);
    let w = match pte_word(s1, p, v) { Some(w) => w, None => 0 };
    let cur = rd(s1.mem, w);
    let t = template_spec(s1.cfg, p, pa, prot, wired, physmem_spec(s1, pa));
    if cur != 0 && frame_of(cur) == pa {
        let st = s1.pmaps[p].stats;
        let wc = if wired && cur & 0x200u32 == 0 {
            st.wired_count + 1
        } else if !wired && cur & 0x200u32 != 0 {
            st.wired_count - 1
        } else {
            st.wired_count as int
        };
        let t2 = if cur & 0x40u32 != 0 { t | 0x40u32 } else { t };
        with_word(with_stats(s1, p, PmapStatistics { wired_count: wc as i32, ..st }), w, t2)
    } else {
        let s2 = if cur != 0 { remove_range_spec(s1, p, v, w, w + 1) } else { s1 };
        let s3 = if valid_page_spec(s2.cfg, s2.pv.len() as int, pa) {
            let i = pai(s2.cfg, pa);
            with_pv(s2, i, pv_insert(s2.pv[i], PvEntry { pmap: p as usize, va: v }))
        } else {
            s2
        };
        let st = s3.pmaps[p].stats;
        let st2 = PmapStatistics {
            resident_count: (st.resident_count + 1) as i32,
            wired_count: if wired { (st.wired_count + 1) as i32 } else { st.wired_count },
        };
        with_word(with_stats(s3, p, st2), w, t)
    }
}

/// `pmap_enter(p, v, pa, prot, wired)` does not panic: a kernel mapping
/// lies in the kernel's virtual area, a missing table can be added (not
/// for the kernel, and only below a directory), a replaced mapping is
/// listed by its page, and the counters stay in range.
pub open spec fn enter_ok(s: SysView, p: int, v: u32, pa: u32, prot: i32, wired: bool) -> bool {
    let s1 = expand_spec(s, p, v);
    let w = match pte_word(s1, p, v) { Some(w) => w, None => 0 };
    let cur = rd(s1.mem, w);
    let st = s1.pmaps[p].stats;
    &&& 0 <= p < s.pmaps.len()
    &&& p == 0 ==> s.cfg.kernel_virtual_start <= v < s.cfg.kernel_virtual_end
    &&& pte_word(s, p, v) is None ==> p != 0 && s.pmaps[p].dir.len() != 0
    &&& (pte_word(s, p, v) is None && s.pt_free.len() == 0) || if cur != 0 && frame_of(cur) == pa {
        &&& (wired && cur & 0x200u32 == 0 ==> st.wired_count < i32::MAX)
        &&& (!wired && cur & 0x200u32 != 0 ==> st.wired_count > i32::MIN)
    } else {
        let s2 = if cur != 0 { remove_range_spec(s1, p, v, w, w + 1) } else { s1 };
        let st2 = s2.pmaps[p].stats;
        &&& cur != 0 ==> remove_range_ok(s1, p, v, w, w + 1)
        &&& st2.resident_count < i32::MAX
        &&& wired ==> st2.wired_count < i32::MAX
    }
}

/// Law: entering the page that `v` already maps sets the entry's wired bit
/// to `wired` and moves the pmap's wired count by the change of that bit:
/// up one when an unwired entry is wired, down one when a wired entry is
/// unwired, unchanged otherwise.  A wired count that counts the wired
/// entries of the pmap therefore keeps counting them.
pub proof fn law_reenter_wired_count(s: SysView, p: int, v: u32, pa: u32, prot: i32, wired: bool)
    requires
        wf(s),
        enter_ok(s, p, v, pa, prot, wired),
        pte_word(s, p, v) is Some,
        ({
            let w = pte_word(s, p, v)->0;
            rd(s.mem, w) != 0 && frame_of(rd(s.mem, w)) == pa
        }),
    ensures ({
        let w = pte_word(s, p, v)->0;
        let cur = rd(s.mem, w);
        let s2 = enter_spec(s, p, v, pa, prot, wired);
        &&& (rd(s2.mem, w) & 0x200u32 != 0) == wired
        &&& s2.pmaps[p].stats.wired_count == s.pmaps[p].stats.wired_count + (if wired { 1int } else { 0int })
            - (if cur & 0x200u32 != 0 { 1int } else { 0int })
    }),
{
    lemma_expand(s, p, v);
    let w = pte_word(s, p, v)->0;
    let t = template_spec(s.cfg, p, pa, prot, wired, physmem_spec(s, pa));
    lemma_template(pa, p != 0, prot & 2i32 != 0, s.cfg.cpu_type >= 17 && !physmem_spec(s, pa), wired);
}

/// `pmap_enter(pmap, v, pa, prot, wired)`: map `v` to the page at `pa` with
/// protection `prot`.  Returns `false`, changing nothing, when a page table
/// is needed and none is free.
pub fn pmap_enter(sys: &mut PmapSystem, p: usize, v: u32, pa: u32, prot: i32, wired: bool) -> (r: bool)
    requires
        wf(old(sys)@),
        enter_ok(old(sys)@, p as int, v, pa, prot, wired),
    ensures
        r == !(pte_word(old(sys)@, p as int, v) is None && old(sys)@.pt_free.len() == 0),
        r ==> final(sys)@ == enter_spec(old(sys)@, p as int, v, pa, prot, wired),
        !r ==> final(sys)@ == old(sys)@,
        wf(final(sys)@),
{
    let ghost s0 = sys@;
    let w = match pmap_expand(sys, p, v) {
        None => return false,
        Some(w) => w,
    };
    let ghost s1 = sys@;
    let is_physmem = if sys.cfg.vm_page_ready {
        pa / 4096 >= sys.cfg.first_managed_page
            && ((pa / 4096 - sys.cfg.first_managed_page) as usize) < sys.pv_head_table.len()
    } else {
        pa < sys.cfg.directmap_end
    };
    let cur = sys.mem[w];
    let old_pa = pte_to_pa(cur);
    let t = pmap_enter_template(sys.cfg, p, pa, prot, wired, is_physmem);
    if cur != 0 && old_pa == pa {
        let st = sys.pmaps[p].stats;
        let mut wc = st.wired_count;
        if wired && (cur & INTEL_PTE_WIRED) == 0 {
            wc = wc + 1;
        } else if !wired && (cur & INTEL_PTE_WIRED) != 0 {
            wc = wc - 1;
        }
        set_stats(sys, p, PmapStatistics { wired_count: wc, ..st });
        let mut t2 = t;
        if (cur & INTEL_PTE_MOD) != 0 {
            t2 = t2 | INTEL_PTE_MOD;
        }
        set_word(sys, w, t2);
        proof {
            assert(sys@ =~= enter_spec(s0, p as int, v, pa, prot, wired));
            lemma_wf_frame(s1, sys@);
        }
    } else {
        if cur != 0 {
            pmap_remove_range(sys, p, v, w, w + 1);
        }
        let ghost s2 = sys@;
        if valid_page(sys, pa) {
            let pai = pa_index(sys, pa);
            let e = PvEntry { pmap: p, va: v };
            if sys.pv_head_table[pai].len() == 0 {
                pv_insert_at(sys, pai, 0, e);
                proof { assert(seq![e] =~= s2.pv[pai as int].insert(0, e)); }
            } else {
                pv_insert_at(sys, pai, 1, e);
            }
        }
        let ghost s3 = sys@;
        let st = sys.pmaps[p].stats;
        let wc = if wired { st.wired_count + 1 } else { st.wired_count };
        set_stats(sys, p, PmapStatistics { resident_count: st.resident_count + 1, wired_count: wc });
        set_word(sys, w, t);
        proof {
            assert(sys@ =~= enter_spec(s0, p as int, v, pa, prot, wired));
            if cur != 0 {
                assert(forall|q: int| 0 <= q < s1.pmaps.len() ==> #[trigger] s2.pmaps[q].dir == s1.pmaps[q].dir);
            }
            lemma_wf_frame(s1, sys@);
        }
    }
    true
}

// ─── Wiring ───────────────────────────────────────────────────────

/// The system after `pmap_change_wiring(p, v, wired)`.
pub open spec fn change_wiring_spec(s: SysView, p: int, v: u32, wired: bool) -> SysView {
    let w = match pte_word(s, p, v) { Some(w) => w, None => 0 };
    let cur = rd(s.mem, w);
    let st = s.pmaps[p].stats;
    if wired && cur & 0x200u32 == 0 {
        with_word(with_stats(s, p, PmapStatistics { wired_count: (st.wired_count + 1) as i32, ..st }), w, cur | 0x200u32)
    } else if !wired && cur & 0x200u32 != 0 {
        with_word(with_stats(s, p, PmapStatistics { wired_count: (st.wired_count - 1) as i32, ..st }), w, cur & !0x200u32)
    } else {
        s
    }
}

/// `pmap_change_wiring` does not panic: the entry exists and the count
/// stays in range.
pub open spec fn change_wiring_ok(s: SysView, p: int, v: u32, wired: bool) -> bool {
    let w = match pte_word(s, p, v) { Some(w) => w, None => 0 };
    let cur = rd(s.mem, w);
    let st = s.pmaps[p].stats;
    &&& 0 <= p < s.pmaps.len()
    &&& pte_word(s, p, v) is Some
    &&& wired && cur & 0x200u32 == 0 ==> st.wired_count < i32::MAX
    &&& !wired && cur & 0x200u32 != 0 ==> st.wired_count > i32::MIN
}

/// `pmap_change_wiring(map, v, wired)`: set or clear the wired bit of `v`'s
/// entry, keeping the wired count.
pub fn pmap_change_wiring(sys: &mut PmapSystem, p: usize, v: u32, wired: bool)
    requires
        wf(old(sys)@),
        change_wiring_ok(old(sys)@, p as int, v, wired),
    ensures
        final(sys)@ == change_wiring_spec(old(sys)@, p as int, v, wired),
        wf(final(sys)@),
{
    let ghost s0 = sys@;
    let w = match pmap_pte(sys, p, v) {
        Some(w) => w,
        None => return,
    };
    let cur = sys.mem[w];
    let st = sys.pmaps[p].stats;
    if wired && (cur & INTEL_PTE_WIRED) == 0 {
        set_stats(sys, p, PmapStatistics { wired_count: st.wired_count + 1, ..st });
        set_word(sys, w, cur | INTEL_PTE_WIRED);
    } else if !wired && (cur & INTEL_PTE_WIRED) != 0 {
        set_stats(sys, p, PmapStatistics { wired_count: st.wired_count - 1, ..st });
        set_word(sys, w, cur & !INTEL_PTE_WIRED);
    }
    proof {
        assert(sys@ =~= change_wiring_spec(s0, p as int, v, wired));
        lemma_wf_frame(s0, sys@);
    }
}

// ─── Modified and referenced bits ─────────────────────────────────

/// Every entry of the list names an existing pmap.
pub open spec fn entries_ok(s: SysView, l: Seq<PvEntry>) -> bool {
    forall|j: int| 0 <= j < l.len() ==> (#[trigger] l[j]).pmap < s.pmaps.len()
}

/// Clearing `bits` in the entries of the mappings `l[i..]`.
pub open spec fn clear_fold(s: SysView, l: Seq<PvEntry>, bits: u32, i: int) -> SysView
    decreases l.len() - i,
{
    if i >= l.len() {
        s
    } else {
        let s1 = match pte_word(s, l[i].pmap as int, l[i].va) {
            Some(w) => with_word(s, w, rd(s.mem, w) & !bits),
            None => s,
        };
        clear_fold(s1, l, bits, i + 1)
    }
}

/// The system after `phys_attribute_clear(phys, bits)`: the page's
/// attribute and every mapping's entry lose `bits`.
pub open spec fn attr_clear_spec(s: SysView, phys: u32, bits: u32) -> SysView {
    if !valid_page_spec(s.cfg, s.pv.len() as int, phys) {
        s
    } else {
        let i = pai(s.cfg, phys);
        clear_fold(with_attr(s, i, s.attrs[i] & !(#[verifier::truncate] (bits as u8))), s.pv[i], bits, 0)
    }
}

/// Does one of the mappings `l[i..]` have one of `bits` in its entry?
pub open spec fn any_bits(s: SysView, l: Seq<PvEntry>, bits: u32, i: int) -> bool
    decreases l.len() - i,
{
    if i >= l.len() {
        false
    } else {
        (match pte_word(s, l[i].pmap as int, l[i].va) {
            Some(w) => rd(s.mem, w) & bits != 0,
            None => false,
        }) || any_bits(s, l, bits, i + 1)
    }
}

/// What `phys_attribute_test(phys, bits)` reports: a managed page whose
/// attribute, or one of whose mappings, has one of `bits`.
pub open spec fn attr_test_spec(s: SysView, phys: u32, bits: u32) -> bool {
    if !valid_page_spec(s.cfg, s.pv.len() as int, phys) {
        false
    } else {
        let i = pai(s.cfg, phys);
        s.attrs[i] & (#[verifier::truncate] (bits as u8)) != 0 || any_bits(s, s.pv[i], bits, 0)
    }
}

/// The attribute operations keep the page's pv list usable.
pub open spec fn attr_ok(s: SysView, phys: u32) -> bool {
    valid_page_spec(s.cfg, s.pv.len() as int, phys) ==> entries_ok(s, s.pv[pai(s.cfg, phys)])
}

pub proof fn lemma_clear_bits(x: u32, b: u32, c: u32)
    by (bit_vector)
    ensures
        (x & !b) & b == 0,
        x & b == 0 ==> (x & !c) & b == 0,
        0u32 & b == 0,
{
}

pub proof fn lemma_clear_bits_u8(x: u8, b: u8)
    by (bit_vector)
    ensures
        (x & !b) & b == 0,
{
}

/// `phys_attribute_clear(phys, bits)`.
fn phys_attribute_clear(sys: &mut PmapSystem, phys: u32, bits: u32)
    requires
        wf(old(sys)@),
        attr_ok(old(sys)@, phys),
    ensures
        final(sys)@ == attr_clear_spec(old(sys)@, phys, bits),
        wf(final(sys)@),
{
    if !valid_page(sys, phys) {
        return;
    }
    let ghost s0 = sys@;
    let pai = pa_index(sys, phys);
    let a = sys.phys_attributes[pai];
    set_attr(sys, pai, a & !(#[verifier::truncate] (bits as u8)));
    let ghost s1 = sys@;
    let ghost l = s0.pv[pai as int];
    let n = sys.pv_head_table[pai].len();
    let mut i: usize = 0;
    while i < n
        invariant
            i <= n,
            n == l.len(),
            pai < sys.pv_head_table.len(),
            sys@.pv == s0.pv,
            l == s0.pv[pai as int],
            entries_ok(s0, l),
            wf(s0),
            sys@.mem.len() == s0.mem.len(),
            sys@.pt_free == s0.pt_free,
            sys@.attrs.len() == s0.attrs.len(),
            sys@.pmaps == s0.pmaps,
            sys.pmaps.len() == s0.pmaps.len(),
            wf(sys@),
            clear_fold(sys@, l, bits, i as int) == clear_fold(s1, l, bits, 0),
        decreases n - i,
    {
        let e = sys.pv_head_table[pai][i];
        assert(e == l[i as int]);
        match pmap_pte(sys, e.pmap, e.va) {
            Some(w) => {
                let x = sys.mem[w];
                set_word(sys, w, x & !bits);
            },
            None => {},
        }
        proof { lemma_wf_frame(s0, sys@); }
        i += 1;
    }
}

/// `phys_attribute_test(phys, bits)`.
fn phys_attribute_test(sys: &PmapSystem, phys: u32, bits: u32) -> (r: bool)
    requires
        wf(sys@),
        attr_ok(sys@, phys),
    ensures
        r == attr_test_spec(sys@, phys, bits),
{
    if !valid_page(sys, phys) {
        return false;
    }
    let pai = pa_index(sys, phys);
    if sys.phys_attributes[pai] & (#[verifier::truncate] (bits as u8)) != 0 {
        return true;
    }
    let ghost l = sys@.pv[pai as int];
    let n = sys.pv_head_table[pai].len();
    let mut i: usize = 0;
    while i < n
        invariant
            i <= n,
            n == l.len(),
            pai < sys.pv_head_table.len(),
            l == sys@.pv[pai as int],
            entries_ok(sys@, l),
            wf(sys@),
            pai as int == self::pai(sys.cfg, phys),
            valid_page_spec(sys.cfg, sys@.pv.len() as int, phys),
            sys@.attrs[pai as int] & (#[verifier::truncate] (bits as u8)) == 0,
            any_bits(sys@, l, bits, 0) == any_bits(sys@, l, bits, i as int),
        decreases n - i,
    {
        let e = sys.pv_head_table[pai][i];
        assert(e == l[i as int]);
        match pmap_pte(sys, e.pmap, e.va) {
            Some(w) => {
                if sys.mem[w] & bits != 0 {
                    assert(any_bits(sys@, l, bits, i as int));
                    return true;
                }
            },
            None => {},
        }
        i += 1;
    }
    false
}

/// `pmap_clear_modify(phys)`: forget that the page was modified.
pub fn pmap_clear_modify(sys: &mut PmapSystem, phys: u32)
    requires
        wf(old(sys)@),
        attr_ok(old(sys)@, phys),
    ensures
        final(sys)@ == attr_clear_spec(old(sys)@, phys, PHYS_MODIFIED),
        wf(final(sys)@),
{
    phys_attribute_clear(sys, phys, PHYS_MODIFIED);
}

/// `pmap_is_modified(phys)`: has the page been modified?
pub fn pmap_is_modified(sys: &PmapSystem, phys: u32) -> (r: bool)
    requires
        wf(sys@),
        attr_ok(sys@, phys),
    ensures
        r == attr_test_spec(sys@, phys, PHYS_MODIFIED),
{
    phys_attribute_test(sys, phys, PHYS_MODIFIED)
}

/// `pmap_clear_reference(phys)`: forget that the page was referenced.
pub fn pmap_clear_reference(sys: &mut PmapSystem, phys: u32)
    requires
        wf(old(sys)@),
        attr_ok(old(sys)@, phys),
    ensures
        final(sys)@ == attr_clear_spec(old(sys)@, phys, PHYS_REFERENCED),
        wf(final(sys)@),
{
    phys_attribute_clear(sys, phys, PHYS_REFERENCED);
}

/// `pmap_is_referenced(phys)`: has the page been referenced?
pub fn pmap_is_referenced(sys: &PmapSystem, phys: u32) -> (r: bool)
    requires
        wf(sys@),
        attr_ok(sys@, phys),
    ensures
        r == attr_test_spec(sys@, phys, PHYS_REFERENCED),
{
    phys_attribute_test(sys, phys, PHYS_REFERENCED)
}

/// The clearing pass keeps directories and pv lists, never sets a bit of
/// `bits`, and clears them in the entries of the mappings it visits.
pub proof fn lemma_clear_fold(s: SysView, l: Seq<PvEntry>, bits: u32, i: int)
    requires
        0 <= i,
    ensures
        clear_fold(s, l, bits, i).pmaps == s.pmaps,
        clear_fold(s, l, bits, i).pv == s.pv,
        clear_fold(s, l, bits, i).attrs == s.attrs,
        clear_fold(s, l, bits, i).cfg == s.cfg,
        clear_fold(s, l, bits, i).mem.len() == s.mem.len(),
        forall|w: int| rd(s.mem, w) & bits == 0 ==> #[trigger] rd(clear_fold(s, l, bits, i).mem, w) & bits == 0,
        forall|j: int| i <= j < l.len() ==> match pte_word(s, (#[trigger] l[j]).pmap as int, l[j].va) {
            Some(w) => rd(clear_fold(s, l, bits, i).mem, w) & bits == 0,
            None => true,
        },
    decreases l.len() - i,
{
    if i < l.len() {
        let s1 = match pte_word(s, l[i].pmap as int, l[i].va) {
            Some(w) => with_word(s, w, rd(s.mem, w) & !bits),
            None => s,
        };
        lemma_clear_fold(s1, l, bits, i + 1);
        assert forall|w: int| rd(s.mem, w) & bits == 0 implies #[trigger] rd(clear_fold(s, l, bits, i).mem, w) & bits == 0 by {
            if let Some(w0) = pte_word(s, l[i].pmap as int, l[i].va) {
                lemma_clear_bits(rd(s.mem, w0), bits, bits);
                lemma_clear_bits(rd(s.mem, w), bits, bits);
            }
        }
        if let Some(w0) = pte_word(s, l[i].pmap as int, l[i].va) {
            lemma_clear_bits(rd(s.mem, w0), bits, bits);
            assert(rd(s1.mem, w0) & bits == 0);
        }
    }
}

pub proof fn lemma_no_bits(s: SysView, l: Seq<PvEntry>, bits: u32, i: int)
    requires
        0 <= i,
        forall|j: int| i <= j < l.len() ==> match pte_word(s, (#[trigger] l[j]).pmap as int, l[j].va) {
            Some(w) => rd(s.mem, w) & bits == 0,
            None => true,
        },
    ensures
        !any_bits(s, l, bits, i),
    decreases l.len() - i,
{
    if i < l.len() {
        assert(match pte_word(s, l[i].pmap as int, l[i].va) { Some(w) => rd(s.mem, w) & bits == 0, None => true });
        lemma_no_bits(s, l, bits, i + 1);
    }
}

/// Law: right after `pmap_clear_modify(phys)` (or `pmap_clear_reference`),
/// `pmap_is_modified(phys)` (or `pmap_is_referenced`) is false.
pub proof fn law_clear_then_test(s: SysView, phys: u32, bits: u32)
    requires
        wf(s),
        attr_ok(s, phys),
    ensures
        !attr_test_spec(attr_clear_spec(s, phys, bits), phys, bits),
{
    if valid_page_spec(s.cfg, s.pv.len() as int, phys) {
        let i = pai(s.cfg, phys);
        let b8 = #[verifier::truncate] (bits as u8);
        let s1 = with_attr(s, i, s.attrs[i] & !b8);
        lemma_clear_fold(s1, s.pv[i], bits, 0);
        lemma_clear_bits_u8(s.attrs[i], b8);
        let r = attr_clear_spec(s, phys, bits);
        lemma_no_bits(r, r.pv[i], bits, 0);
    }
}

// ─── Protecting a physical page ───────────────────────────────────

/// Is the mapping `e` removed (rather than write-protected)?  Kernel
/// mappings are always removed.
pub open spec fn pp_removes(remove: bool, e: PvEntry) -> bool {
    remove || e.pmap == 0
}

/// The word of the entry of mapping `e` (0 if it has none).
pub open spec fn entry_word(s: SysView, e: PvEntry) -> int {
    match pte_word(s, e.pmap as int, e.va) { Some(w) => w, None => 0 }
}

/// Handling one mapping of page `i`: removed (its bits go to the page's
/// attribute and the pmap's counters drop) or write-protected.
pub open spec fn pp_step(s: SysView, i: int, e: PvEntry, remove: bool) -> SysView {
    let q = e.pmap as int;
    let w = entry_word(s, e);
    let x = rd(s.mem, w);
    if pp_removes(remove, e) {
        let st = s.pmaps[q].stats;
        let st1 = PmapStatistics {
            resident_count: (st.resident_count - 1) as i32,
            wired_count: if x & 0x200u32 != 0 { (st.wired_count - 1) as i32 } else { st.wired_count },
        };
        SysView {
            mem: wr(s.mem, w, 0),
            attrs: s.attrs.update(i, s.attrs[i] | (#[verifier::truncate] ((x & 0x60u32) as u8))),
            pmaps: s.pmaps.update(q, PmapView { stats: st1, ..s.pmaps[q] }),
            ..s
        }
    } else {
        with_word(s, w, x & !2u32)
    }
}

/// Handling the mappings `l[k..]` in order.
pub open spec fn pp_fold(s: SysView, l: Seq<PvEntry>, i: int, remove: bool, k: int) -> SysView
    decreases l.len() - k,
{
    if k >= l.len() { s } else { pp_fold(pp_step(s, i, l[k], remove), l, i, remove, k + 1) }
}

/// Handling the mappings `l[k..]` does not panic: each names a pmap and
/// has an entry, and the counters of removed ones stay in range.
pub open spec fn pp_ok(s: SysView, l: Seq<PvEntry>, i: int, remove: bool, k: int) -> bool
    decreases l.len() - k,
{
    if k >= l.len() {
        true
    } else {
        let e = l[k];
        let q = e.pmap as int;
        let x = rd(s.mem, entry_word(s, e));
        &&& q < s.pmaps.len()
        &&& pte_word(s, q, e.va) is Some
        &&& pp_removes(remove, e) ==> s.pmaps[q].stats.resident_count > i32::MIN
        &&& pp_removes(remove, e) && x & 0x200u32 != 0 ==> s.pmaps[q].stats.wired_count > i32::MIN
        &&& pp_ok(pp_step(s, i, e, remove), l, i, remove, k + 1)
    }
}

/// The mappings among `l[..n]` that are kept, in order.
pub open spec fn pp_kept(l: Seq<PvEntry>, remove: bool, n: int) -> Seq<PvEntry>
    decreases n,
{
    if n <= 0 {
        Seq::empty()
    } else if pp_removes(remove, l[n - 1]) {
        pp_kept(l, remove, n - 1)
    } else {
        pp_kept(l, remove, n - 1).push(l[n - 1])
    }
}

/// Does `prot` only lower permissions to reading (and executing)?
pub open spec fn page_protect_removes(prot: i32) -> bool {
    !(prot == 1 || prot == 5)
}

/// The system after `pmap_page_protect(phys, prot)`.
pub open spec fn page_protect_spec(s: SysView, phys: u32, prot: i32) -> SysView {
    if !valid_page_spec(s.cfg, s.pv.len() as int, phys) || (page_protect_removes(prot) && prot == 7) {
        s
    } else {
        let i = pai(s.cfg, phys);
        let l = s.pv[i];
        let remove = page_protect_removes(prot);
        with_pv(pp_fold(s, l, i, remove, 0), i, pp_kept(l, remove, l.len() as int))
    }
}

/// `pmap_page_protect(phys, prot)` does not panic.
pub open spec fn page_protect_ok(s: SysView, phys: u32, prot: i32) -> bool {
    valid_page_spec(s.cfg, s.pv.len() as int, phys) && !(page_protect_removes(prot) && prot == 7) ==> {
        let i = pai(s.cfg, phys);
        pp_ok(s, s.pv[i], i, page_protect_removes(prot), 0)
    }
}

fn set_pv(sys: &mut PmapSystem, i: usize, l: Vec<PvEntry>)
    requires
        i < old(sys).pv_head_table.len(),
    ensures
        final(sys)@ == with_pv(old(sys)@, i as int, l@),
{
    sys.pv_head_table.set(i, l);
    proof { assert(sys@ =~= with_pv(old(sys)@, i as int, l@)); }
}

/// `pmap_page_protect(phys, prot)`: lower the permissions of every mapping
/// of the page at `phys` to `prot`, removing the mappings unless `prot`
/// still allows reading (kernel mappings are always removed).
pub fn pmap_page_protect(sys: &mut PmapSystem, phys: u32, prot: i32)
    requires
        wf(old(sys)@),
        page_protect_ok(old(sys)@, phys, prot),
    ensures
        final(sys)@ == page_protect_spec(old(sys)@, phys, prot),
        wf(final(sys)@),
{
    if !valid_page(sys, phys) {
        return;
    }
    proof { lemma_prot_values(); }
    let remove = if prot == VM_PROT_READ || prot == (VM_PROT_READ | VM_PROT_EXECUTE) {
        false
    } else if prot == VM_PROT_ALL {
        return;
    } else {
        true
    };
    let pai = pa_index(sys, phys);
    let ghost s0 = sys@;
    let ghost l = s0.pv[pai as int];
    let n = sys.pv_head_table[pai].len();
    let mut kept: Vec<PvEntry> = Vec::new();
    let mut k: usize = 0;
    while k < n
        invariant
            k <= n,
            n == l.len(),
            pai < s0.pv.len(),
            pai < sys.pv_head_table.len(),
            sys@.pv == s0.pv,
            l == s0.pv[pai as int],
            wf(sys@),
            wf(s0),
            sys.pmaps.len() == s0.pmaps.len(),
            sys@.pt_free == s0.pt_free,
            sys@.cfg == s0.cfg,
            sys@.mem.len() == s0.mem.len(),
            sys@.attrs.len() == s0.attrs.len(),
            forall|q: int| 0 <= q < s0.pmaps.len() ==> #[trigger] sys@.pmaps[q].dir == s0.pmaps[q].dir,
            pp_fold(sys@, l, pai as int, remove, k as int) == pp_fold(s0, l, pai as int, remove, 0),
            pp_ok(sys@, l, pai as int, remove, k as int),
            kept@ == pp_kept(l, remove, k as int),
        decreases n - k,
    {
        let e = sys.pv_head_table[pai][k];
        assert(e == l[k as int]);
        let ghost before = sys@;
        match pmap_pte(sys, e.pmap, e.va) {
            Some(w) => {
                let x = sys.mem[w];
                if remove || e.pmap == 0 {
                    let st = sys.pmaps[e.pmap].stats;
                    let wc = if x & INTEL_PTE_WIRED != 0 { st.wired_count - 1 } else { st.wired_count };
                    set_stats(sys, e.pmap, PmapStatistics { resident_count: st.resident_count - 1, wired_count: wc });
                    let a = sys.phys_attributes[pai];
                    set_attr(sys, pai, a | (#[verifier::truncate] ((x & PHYS_MOD_REF) as u8)));
                    set_word(sys, w, 0);
                    proof {
                        assert(sys@.pmaps =~= pp_step(before, pai as int, e, remove).pmaps);
                        assert(sys@ =~= pp_step(before, pai as int, e, remove));
                    }
                } else {
                    set_word(sys, w, x & !INTEL_PTE_WRITE);
                    kept.push(e);
                }
            },
            None => {},
        }
        proof {
            lemma_wf_frame(s0, sys@);
        }
        k += 1;
    }
    set_pv(sys, pai, kept);
    proof {
        assert(sys@ =~= page_protect_spec(s0, phys, prot));
        lemma_wf_frame(s0, sys@);
    }
}

// ─── Pmap lifecycle ───────────────────────────────────────────────

/// The directory of a new pmap: the kernel's, without the entry for the
/// BIOS window at linear address 0.
pub open spec fn user_dir(kdir: Seq<u32>) -> Seq<u32> {
    kdir.update(0, 0)
}

/// The system after `pmap_create(0)` succeeds: a new pmap (the last one)
/// with a copy of the kernel directory on the last free directory page.
pub open spec fn create_spec(s: SysView) -> SysView {
    SysView {
        pmaps: s.pmaps.push(PmapView {
            dir: user_dir(s.pmaps[0].dir),
            dirbase: s.pd_free.last(),
            ref_count: 1,
            stats: PmapStatistics { resident_count: 0, wired_count: 0 },
            cpus_using: 0,
        }),
        pd_free: s.pd_free.drop_last(),
        ..s
    }
}

/// `pmap_create(size)`: a new pmap for an address space, or `None` for a
/// software-only map (`size != 0`) or when no directory page is free.
pub fn pmap_create(sys: &mut PmapSystem, size: usize) -> (r: Option<usize>)
    requires
        wf(old(sys)@),
        old(sys)@.pmaps[0].dir.len() == 1024,
    ensures
        r is None <==> size != 0 || old(sys)@.pd_free.len() == 0,
        r is None ==> final(sys)@ == old(sys)@,
        r matches Some(p) ==> p == old(sys)@.pmaps.len() && final(sys)@ == create_spec(old(sys)@),
        wf(final(sys)@),
{
    if size != 0 {
        return None;
    }
    if sys.pd_free.len() == 0 {
        return None;
    }
    let ghost s0 = sys@;
    let d = sys.pd_free.pop().unwrap();
    let mut dir: Vec<u32> = Vec::new();
    let mut i: usize = 0;
    while i < 1024
        invariant
            i <= 1024,
            sys.pmaps.len() == s0.pmaps.len(),
            sys@.pmaps == s0.pmaps,
            s0.pmaps[0].dir.len() == 1024,
            s0.pmaps.len() >= 1,
            dir@ == s0.pmaps[0].dir.subrange(0, i as int),
        decreases 1024 - i,
    {
        let x = sys.pmaps[0].dir[i];
        dir.push(x);
        proof { assert(dir@ =~= s0.pmaps[0].dir.subrange(0, i + 1)); }
        i += 1;
    }
    proof { assert(s0.pmaps[0].dir.subrange(0, 1024) =~= s0.pmaps[0].dir); }
    let pdi = lin2pdenum((LINEAR_MIN_KERNEL_ADDRESS - VM_MIN_KERNEL_ADDRESS) as usize) as usize;
    dir.set(pdi, 0);
    sys.pmaps.push(Pmap {
        dir,
        dirbase: d,
        ref_count: 1,
        stats: PmapStatistics { resident_count: 0, wired_count: 0 },
        cpus_using: 0,
    });
    proof {
        let s1 = create_spec(s0);
        assert(sys@.pmaps[s0.pmaps.len() as int] =~= s1.pmaps[s0.pmaps.len() as int]);
        assert(sys@.pmaps =~= s1.pmaps);
        assert(sys@ =~= s1);
        assert(dir_ok(s0, s0.pmaps[0].dir));
        assert forall|q: int| 0 <= q < s1.pmaps.len() implies dir_ok(s1, #[trigger] s1.pmaps[q].dir) by {
            if q < s0.pmaps.len() {
                assert(dir_ok(s0, s0.pmaps[q].dir));
            } else {
                assert forall|j: int| 0 <= j < s1.pmaps[q].dir.len() && #[trigger] s1.pmaps[q].dir[j] & 1u32 != 0
                    implies frame_ok(s1, frame_of(s1.pmaps[q].dir[j])) by {
                    if j == 0 {
                        assert(0u32 & 1u32 == 0) by (bit_vector);
                    } else {
                        assert(s1.pmaps[q].dir[j] == s0.pmaps[0].dir[j]);
                    }
                }
            }
        }
        assert forall|k: int| 0 <= k < s1.pt_free.len() implies frame_ok(s1, #[trigger] s1.pt_free[k]) by {
            assert(frame_ok(s0, s0.pt_free[k]));
        }
    }
    Some(sys.pmaps.len() - 1)
}

/// `pmap_reference(p)`: one more reference to pmap `p`.
pub fn pmap_reference(sys: &mut PmapSystem, p: usize)
    requires
        wf(old(sys)@),
        p < old(sys).pmaps.len(),
        old(sys)@.pmaps[p as int].ref_count < i32::MAX,
    ensures
        final(sys)@ == (SysView {
            pmaps: old(sys)@.pmaps.update(p as int, PmapView {
                ref_count: (old(sys)@.pmaps[p as int].ref_count + 1) as i32,
                ..old(sys)@.pmaps[p as int]
            }),
            ..old(sys)@
        }),
        wf(final(sys)@),
{
    let ghost s0 = sys@;
    let c = sys.pmaps[p].ref_count;
    sys.pmaps[p].ref_count = c + 1;
    proof {
        assert(sys@.pmaps =~= s0.pmaps.update(p as int, PmapView { ref_count: (c + 1) as i32, ..s0.pmaps[p as int] }));
        lemma_wf_frame(s0, sys@);
    }
}

/// The page tables of the user part (entries `0..n`) of a directory.
pub open spec fn user_tables(d: Seq<u32>, n: int) -> Seq<u32>
    decreases n,
{
    if n <= 0 {
        Seq::empty()
    } else if d[n - 1] & 1u32 != 0 {
        user_tables(d, n - 1).push(frame_of(d[n - 1]))
    } else {
        user_tables(d, n - 1)
    }
}

/// Number of directory entries below the kernel's addresses.
pub open spec fn n_user_pdes() -> int {
    pde_index(VM_MAX_USER_ADDRESS as int)
}

/// The system after `pmap_destroy(p)`: one reference less; at zero the
/// user page tables and the directory are freed and the pmap is gone.
pub open spec fn destroy_spec(s: SysView, p: int) -> SysView {
    let pm = s.pmaps[p];
    let rc = pm.ref_count - 1;
    if rc != 0 {
        SysView { pmaps: s.pmaps.update(p, PmapView { ref_count: rc as i32, ..pm }), ..s }
    } else {
        SysView {
            pmaps: s.pmaps.update(p, PmapView { dir: Seq::empty(), ref_count: 0, ..pm }),
            pt_free: s.pt_free + user_tables(pm.dir, n_user_pdes()),
            pd_free: s.pd_free.push(pm.dirbase),
            ..s
        }
    }
}

/// `pmap_destroy(p)`: drop a reference to pmap `p`, freeing it with the last.
pub fn pmap_destroy(sys: &mut PmapSystem, p: usize)
    requires
        wf(old(sys)@),
        p < old(sys).pmaps.len(),
        old(sys)@.pmaps[p as int].ref_count > i32::MIN,
        old(sys)@.pmaps[p as int].ref_count == 1 ==> old(sys)@.pmaps[p as int].dir.len() == 1024,
    ensures
        final(sys)@ == destroy_spec(old(sys)@, p as int),
        wf(final(sys)@),
{
    let ghost s0 = sys@;
    let c = sys.pmaps[p].ref_count - 1;
    sys.pmaps[p].ref_count = c;
    if c != 0 {
        proof {
            assert(sys@.pmaps =~= destroy_spec(s0, p as int).pmaps);
            assert(sys@ =~= destroy_spec(s0, p as int));
            lemma_wf_frame(s0, sys@);
        }
        return;
    }
    let ghost d = s0.pmaps[p as int].dir;
    proof { assert(dir_ok(s0, d)); }
    let n = lin2pdenum(VM_MAX_USER_ADDRESS as usize) as usize;
    let mut l2i: usize = 0;
    while l2i < n
        invariant
            l2i <= n,
            n == n_user_pdes(),
            n <= 1024,
            p < sys.pmaps.len(),
            sys.pmaps.len() == s0.pmaps.len(),
            sys@.pmaps[p as int].dir == d,
            d.len() == 1024,
            dir_ok(s0, d),
            sys@.pt_free == s0.pt_free + user_tables(d, l2i as int),
            forall|k: int| 0 <= k < sys@.pt_free.len() ==> frame_ok(s0, #[trigger] sys@.pt_free[k]),
            sys@ == (SysView {
                pmaps: s0.pmaps.update(p as int, PmapView { ref_count: 0, ..s0.pmaps[p as int] }),
                pt_free: sys@.pt_free,
                ..s0
            }),
        decreases n - l2i,
    {
        let pde = sys.pmaps[p].dir[l2i];
        if pde & INTEL_PTE_VALID != 0 {
            let f = pte_to_pa(pde);
            sys.pt_free.push(f);
        }
        proof {
            assert(sys@.pt_free =~= s0.pt_free + user_tables(d, l2i + 1));
            assert forall|k: int| 0 <= k < sys@.pt_free.len() implies frame_ok(s0, #[trigger] sys@.pt_free[k]) by {
                if k == sys@.pt_free.len() - 1 && pde & 1u32 != 0 {
                    assert(d[l2i as int] == pde);
                }
            }
        }
        l2i += 1;
    }
    let ghost mid = sys.pmaps@;
    let db = sys.pmaps[p].dirbase;
    sys.pd_free.push(db);
    sys.pmaps[p].dir = Vec::new();
    assert(forall|q: int| 0 <= q < mid.len() && q != p as int ==> sys.pmaps@[q] == mid[q]);
    proof {
        let s1 = destroy_spec(s0, p as int);
        assert(sys@.pmaps[p as int] =~= s1.pmaps[p as int]);
        assert(sys@.pmaps.len() == s1.pmaps.len());
        assert forall|q: int| 0 <= q < s1.pmaps.len() && q != p as int implies sys@.pmaps[q] == s1.pmaps[q] by {
            assert(sys@.pmaps[q] == sys.pmaps@[q]@);
            assert(mid[q]@ == s0.pmaps.update(p as int, PmapView { ref_count: 0, ..s0.pmaps[p as int] })[q]);
        }
        assert(sys@.pmaps =~= s1.pmaps);
        assert(sys@ =~= s1);
        assert forall|q: int| 0 <= q < s1.pmaps.len() implies dir_ok(s1, #[trigger] s1.pmaps[q].dir) by {
            if q != p as int {
                assert(dir_ok(s0, s0.pmaps[q].dir));
            }
        }
    }
}

// ─── The kernel directory at boot ─────────────────────────────────

/// `INIT_VM_MIN_KERNEL_ADDRESS`: where the kernel runs before paging.
pub const INIT_VM_MIN_KERNEL_ADDRESS: u32 = 0;

/// Number of directory entries of the temporary mapping: the distance, the
/// shorter way round, between the boot-time and the final kernel bases.
fn temporary_mapping_size() -> (n: usize)
    ensures
        n == 256,
{
    let mut delta = INIT_VM_MIN_KERNEL_ADDRESS.wrapping_sub(LINEAR_MIN_KERNEL_ADDRESS);
    let neg = 0u32.wrapping_sub(delta);
    if neg < delta {
        delta = neg;
    }
    (delta / PDE_MAPPED_SIZE) as usize
}

/// The kernel directory with the temporary mapping: the first entries
/// repeat the entries of the kernel's own addresses.
pub open spec fn temp_mapped_dir(d: Seq<u32>) -> Seq<u32> {
    Seq::new(d.len(), |i: int| if i < 256 { d[768 + i] } else { d[i] })
}

/// The kernel directory without the temporary mapping (the BIOS window at
/// entry 0 stays mapped).
pub open spec fn temp_unmapped_dir(d: Seq<u32>) -> Seq<u32> {
    Seq::new(d.len(), |i: int| if i == 0 { d[768] } else if i < 256 { 0 } else { d[i] })
}

/// The system with the kernel directory replaced.
pub open spec fn with_kernel_dir(s: SysView, d: Seq<u32>) -> SysView {
    SysView { pmaps: s.pmaps.update(0, PmapView { dir: d, ..s.pmaps[0] }), ..s }
}

/// `pmap_make_temporary_mapping()`: map physical memory at linear address
/// 0 as well, by repeating the kernel's directory entries there.
pub fn pmap_make_temporary_mapping(sys: &mut PmapSystem)
    requires
        wf(old(sys)@),
        old(sys)@.pmaps[0].dir.len() == 1024,
    ensures
        final(sys)@ == with_kernel_dir(old(sys)@, temp_mapped_dir(old(sys)@.pmaps[0].dir)),
        wf(final(sys)@),
{
    let ghost s0 = sys@;
    let ghost d = s0.pmaps[0].dir;
    let nb_direct = temporary_mapping_size();
    let dst0 = lin2pdenum(INIT_VM_MIN_KERNEL_ADDRESS as usize) as usize;
    let src0 = lin2pdenum(LINEAR_MIN_KERNEL_ADDRESS as usize) as usize;
    assert(nb_direct == 256 && dst0 == 0 && src0 == 768);
    proof {
        assert(Seq::new(1024, |k: int| if k < 0 { 0u32 } else { d[k] }) =~= d);
        assert(Seq::new(1024, |k: int| if k < 0 { d[768 + k] } else { d[k] }) =~= d);
        assert(s0.pmaps[0] =~= PmapView { dir: d, ..s0.pmaps[0] });
        assert(s0.pmaps =~= s0.pmaps.update(0, PmapView { dir: d, ..s0.pmaps[0] }));
        assert(s0 =~= with_kernel_dir(s0, d));
    }
    let mut i: usize = 0;
    while i < nb_direct
        invariant
            i <= nb_direct == 256,
            dst0 == 0,
            src0 == 768,
            sys.pmaps.len() == s0.pmaps.len(),
            s0.pmaps.len() >= 1,
            d.len() == 1024,
            sys@ == with_kernel_dir(s0, Seq::new(1024, |k: int| if k < i { d[768 + k] } else { d[k] })),
            sys.pmaps[0].dir.len() == 1024,
        decreases nb_direct - i,
    {
        let x = sys.pmaps[0].dir[src0 + i];
        set_pde(sys, 0, dst0 + i, x);
        proof {
            assert(sys@.pmaps[0].dir =~= Seq::new(1024, |k: int| if k < i + 1 { d[768 + k] } else { d[k] }));
            assert(sys@.pmaps =~= with_kernel_dir(s0, Seq::new(1024, |k: int| if k < i + 1 { d[768 + k] } else { d[k] })).pmaps);
        }
        i += 1;
    }
    let bios = lin2pdenum((LINEAR_MIN_KERNEL_ADDRESS - VM_MIN_KERNEL_ADDRESS) as usize) as usize;
    let x = sys.pmaps[0].dir[src0];
    set_pde(sys, 0, bios, x);
    proof {
        let s1 = with_kernel_dir(s0, temp_mapped_dir(d));
        assert(sys@.pmaps[0].dir =~= temp_mapped_dir(d));
        assert(sys@.pmaps =~= s1.pmaps);
        assert(sys@ =~= s1);
        lemma_kernel_dir_wf(s0, temp_mapped_dir(d));
    }
}

/// `pmap_remove_temporary_mapping()`: drop the temporary mapping at linear
/// address 0, keeping the BIOS window.
pub fn pmap_remove_temporary_mapping(sys: &mut PmapSystem)
    requires
        wf(old(sys)@),
        old(sys)@.pmaps[0].dir.len() == 1024,
    ensures
        final(sys)@ == with_kernel_dir(old(sys)@, temp_unmapped_dir(old(sys)@.pmaps[0].dir)),
        wf(final(sys)@),
{
    let ghost s0 = sys@;
    let ghost d = s0.pmaps[0].dir;
    let nb_direct = temporary_mapping_size();
    let dst0 = lin2pdenum(INIT_VM_MIN_KERNEL_ADDRESS as usize) as usize;
    assert(nb_direct == 256 && dst0 == 0);
    proof {
        assert(Seq::new(1024, |k: int| if k < 0 { 0u32 } else { d[k] }) =~= d);
        assert(Seq::new(1024, |k: int| if k < 0 { d[768 + k] } else { d[k] }) =~= d);
        assert(s0.pmaps[0] =~= PmapView { dir: d, ..s0.pmaps[0] });
        assert(s0.pmaps =~= s0.pmaps.update(0, PmapView { dir: d, ..s0.pmaps[0] }));
        assert(s0 =~= with_kernel_dir(s0, d));
    }
    let mut i: usize = 0;
    while i < nb_direct
        invariant
            i <= nb_direct == 256,
            dst0 == 0,
            sys.pmaps.len() == s0.pmaps.len(),
            s0.pmaps.len() >= 1,
            d.len() == 1024,
            sys@ == with_kernel_dir(s0, Seq::new(1024, |k: int| if k < i { 0u32 } else { d[k] })),
            sys.pmaps[0].dir.len() == 1024,
        decreases nb_direct - i,
    {
        set_pde(sys, 0, dst0 + i, 0);
        proof {
            assert(sys@.pmaps[0].dir =~= Seq::new(1024, |k: int| if k < i + 1 { 0u32 } else { d[k] }));
            assert(sys@.pmaps =~= with_kernel_dir(s0, Seq::new(1024, |k: int| if k < i + 1 { 0u32 } else { d[k] })).pmaps);
        }
        i += 1;
    }
    let bios = lin2pdenum((LINEAR_MIN_KERNEL_ADDRESS - VM_MIN_KERNEL_ADDRESS) as usize) as usize;
    let src0 = lin2pdenum(LINEAR_MIN_KERNEL_ADDRESS as usize) as usize;
    let x = sys.pmaps[0].dir[src0];
    set_pde(sys, 0, bios, x);
    proof {
        let s1 = with_kernel_dir(s0, temp_unmapped_dir(d));
        assert(sys@.pmaps[0].dir =~= temp_unmapped_dir(d));
        assert(sys@.pmaps =~= s1.pmaps);
        assert(sys@ =~= s1);
        lemma_kernel_dir_wf(s0, temp_unmapped_dir(d));
    }
}

/// Replacing the kernel directory by one made of its own entries and
/// zeros keeps the system well formed.
pub proof fn lemma_kernel_dir_wf(s: SysView, d2: Seq<u32>)
    requires
        wf(s),
        d2.len() == 1024,
        forall|i: int| 0 <= i < 1024 ==> #[trigger] d2[i] == 0 || exists|j: int| 0 <= j < 1024 && d2[i] == s.pmaps[0].dir[j],
        s.pmaps[0].dir.len() == 1024,
    ensures
        wf(with_kernel_dir(s, d2)),
{
    let s1 = with_kernel_dir(s, d2);
    assert(dir_ok(s, s.pmaps[0].dir));
    assert(0u32 & 1u32 == 0) by (bit_vector);
    assert forall|q: int| 0 <= q < s1.pmaps.len() implies dir_ok(s1, #[trigger] s1.pmaps[q].dir) by {
        assert(dir_ok(s, s.pmaps[q].dir));
        if q == 0 {
            assert forall|i: int| 0 <= i < d2.len() && #[trigger] d2[i] & 1u32 != 0 implies frame_ok(s1, frame_of(d2[i])) by {
                if d2[i] != 0 {
                    let j = choose|j: int| 0 <= j < 1024 && d2[i] == s.pmaps[0].dir[j];
                    assert(s.pmaps[0].dir[j] & 1u32 != 0);
                }
            }
        }
    }
    assert forall|k: int| 0 <= k < s1.pt_free.len() implies frame_ok(s1, #[trigger] s1.pt_free[k]) by {
        assert(frame_ok(s, s.pt_free[k]));
    }
}

/// `pmap_unmap_page_zero()`: unmap kernel address 0 so that null pointers
/// fault (the message announcing it is the caller's to print).
pub fn pmap_unmap_page_zero(sys: &mut PmapSystem)
    requires
        wf(old(sys)@),
    ensures
        final(sys)@ == (match pte_word(old(sys)@, 0, 0) {
            Some(w) => with_word(old(sys)@, w, 0),
            None => old(sys)@,
        }),
        wf(final(sys)@),
{
    let ghost s0 = sys@;
    match pmap_pte(sys, 0, 0) {
        Some(w) => {
            set_word(sys, w, 0);
            proof { lemma_wf_frame(s0, sys@); }
        },
        None => {},
    }
}

// ─── Map windows and the kernel's virtual space ───────────────────

/// `pmap_get_mapwindow(entry)`: install `entry` in the first free window
/// (one whose entry is 0) and give its index.
pub fn pmap_get_mapwindow(sys: &mut PmapSystem, entry: u32) -> (r: usize)
    requires
        old(sys).mapwindows.len() >= PMAP_NMAPWINDOWS,
        exists|i: int| 0 <= i < PMAP_NMAPWINDOWS && rd(old(sys)@.mem, #[trigger] old(sys)@.mapwindows[i].entry as int) == 0,
    ensures
        r < PMAP_NMAPWINDOWS,
        rd(old(sys)@.mem, old(sys)@.mapwindows[r as int].entry as int) == 0,
        forall|j: int| 0 <= j < r ==> rd(old(sys)@.mem, #[trigger] old(sys)@.mapwindows[j].entry as int) != 0,
        final(sys)@ == with_word(old(sys)@, old(sys)@.mapwindows[r as int].entry as int, entry),
{
    let mut i: usize = 0;
    while i < PMAP_NMAPWINDOWS as usize
        invariant
            i <= PMAP_NMAPWINDOWS,
            sys@ == old(sys)@,
            sys.mapwindows.len() >= PMAP_NMAPWINDOWS,
            forall|j: int| 0 <= j < i ==> rd(sys@.mem, #[trigger] sys@.mapwindows[j].entry as int) != 0,
            exists|j: int| 0 <= j < PMAP_NMAPWINDOWS && rd(sys@.mem, #[trigger] sys@.mapwindows[j].entry as int) == 0,
        decreases PMAP_NMAPWINDOWS - i,
    {
        let win = sys.mapwindows[i];
        if read_word(&sys.mem, win.entry) == 0 {
            set_word(sys, win.entry, entry);
            return i;
        }
        i += 1;
    }
    proof {
        let j = choose|j: int| 0 <= j < PMAP_NMAPWINDOWS && rd(sys@.mem, #[trigger] sys@.mapwindows[j].entry as int) == 0;
        assert(rd(sys@.mem, sys@.mapwindows[j].entry as int) != 0);
    }
    0
}

/// `pmap_put_mapwindow(map)`: tear down window `i`.
pub fn pmap_put_mapwindow(sys: &mut PmapSystem, i: usize)
    requires
        i < old(sys).mapwindows.len(),
    ensures
        final(sys)@ == with_word(old(sys)@, old(sys)@.mapwindows[i as int].entry as int, 0),
{
    let win = sys.mapwindows[i];
    set_word(sys, win.entry, 0);
}

/// `pmap_virtual_space()`: the kernel's virtual area available to the VM
/// system (its end keeps room for the map windows).
pub fn pmap_virtual_space(sys: &PmapSystem) -> (r: (u32, u32))
    requires
        sys.cfg.kernel_virtual_end >= MAPWINDOW_SIZE,
    ensures
        r == (sys.cfg.kernel_virtual_start, (sys.cfg.kernel_virtual_end - MAPWINDOW_SIZE) as u32),
{
    (sys.cfg.kernel_virtual_start, sys.cfg.kernel_virtual_end - MAPWINDOW_SIZE)
}

/// `pmap_init(npages)`: one empty pv list and one clear attribute byte per
/// managed page; managed pages are tracked from now on.
pub fn pmap_init(sys: &mut PmapSystem, npages: usize)
    requires
        wf(old(sys)@),
    ensures
        final(sys)@ == (SysView {
            pv: Seq::new(npages as nat, |i: int| Seq::<PvEntry>::empty()),
            attrs: Seq::new(npages as nat, |i: int| 0u8),
            cfg: PmapConfig { initialized: true, ..old(sys)@.cfg },
            ..old(sys)@
        }),
        wf(final(sys)@),
{
    let ghost s0 = sys@;
    let mut pv: Vec<Vec<PvEntry>> = Vec::new();
    let mut attrs: Vec<u8> = Vec::new();
    let mut i: usize = 0;
    while i < npages
        invariant
            i <= npages,
            pv@.len() == i,
            attrs@.len() == i,
            forall|k: int| 0 <= k < i ==> (#[trigger] pv@[k])@ == Seq::<PvEntry>::empty(),
            forall|k: int| 0 <= k < i ==> #[trigger] attrs@[k] == 0u8,
        decreases npages - i,
    {
        pv.push(Vec::new());
        attrs.push(0);
        i += 1;
    }
    sys.pv_head_table = pv;
    sys.phys_attributes = attrs;
    sys.cfg.initialized = true;
    proof {
        let s1 = SysView {
            pv: Seq::new(npages as nat, |i: int| Seq::<PvEntry>::empty()),
            attrs: Seq::new(npages as nat, |i: int| 0u8),
            cfg: PmapConfig { initialized: true, ..s0.cfg },
            ..s0
        };
        assert(sys@.pv =~= s1.pv);
        assert(sys@.attrs =~= s1.attrs);
        assert(sys@ =~= s1);
        lemma_wf_frame(s0, sys@);
    }
}

// ─── Reclaiming page tables ───────────────────────────────────────

/// Does the page table at word `base` hold a wired entry?
pub open spec fn table_wired(mem: Seq<u32>, base: int) -> bool {
    exists|k: int| 0 <= k < 1024 && #[trigger] rd(mem, base + k) & 0x200u32 != 0
}

/// `pmap_collect`'s work on directory entry `i` of pmap `p`: a present
/// table with no wired entry is emptied, dropped from the directory and
/// freed.
pub open spec fn collect_step(s: SysView, p: int, i: int) -> SysView {
    let pde = s.pmaps[p].dir[i];
    let base = frame_of(pde) / 4;
    if pde & 1u32 == 0 || table_wired(s.mem, base as int) {
        s
    } else {
        let s1 = remove_range_spec(s, p, (i * 0x40_0000) as u32, base as int, base + 1024);
        SysView { pt_free: s1.pt_free.push(frame_of(pde)), ..with_pde(s1, p, i, 0) }
    }
}

/// `pmap_collect`'s work on directory entries `i..n`.
pub open spec fn collect_fold(s: SysView, p: int, i: int, n: int) -> SysView
    decreases n - i,
{
    if i >= n { s } else { collect_fold(collect_step(s, p, i), p, i + 1, n) }
}

/// `pmap_collect` does not panic: each emptied table's pages list their
/// mappings and the counters stay in range.
pub open spec fn collect_ok(s: SysView, p: int, i: int, n: int) -> bool
    decreases n - i,
{
    if i >= n {
        true
    } else {
        let pde = s.pmaps[p].dir[i];
        let base = frame_of(pde) / 4;
        &&& (pde & 1u32 != 0 && !table_wired(s.mem, base as int)) ==>
            remove_range_fits(s, p, (i * 0x40_0000) as u32, base as int, base + 1024)
        &&& collect_ok(collect_step(s, p, i), p, i + 1, n)
    }
}

/// The system after `pmap_collect(p)`: the user page tables of `p` without
/// wired entries are reclaimed (never the kernel's).
pub open spec fn collect_spec(s: SysView, p: int) -> SysView {
    if p == 0 { s } else { collect_fold(s, p, 0, n_user_pdes()) }
}

fn table_has_wired(sys: &PmapSystem, base: usize) -> (r: bool)
    requires
        base <= 0x4000_0000,
    ensures
        r == table_wired(sys@.mem, base as int),
{
    let mut k: usize = 0;
    while k < NPTES as usize
        invariant
            k <= 1024,
            base <= 0x4000_0000,
            forall|j: int| 0 <= j < k ==> #[trigger] rd(sys@.mem, base + j) & 0x200u32 == 0,
        decreases 1024 - k,
    {
        if read_word(&sys.mem, base + k) & INTEL_PTE_WIRED != 0 {
            return true;
        }
        k += 1;
    }
    false
}

pub proof fn lemma_collect_step_wf(s: SysView, p: int, i: int)
    requires
        wf(s),
        0 < p < s.pmaps.len(),
        0 <= i < s.pmaps[p].dir.len(),
    ensures
        wf(collect_step(s, p, i)),
        collect_step(s, p, i).pmaps.len() == s.pmaps.len(),
        collect_step(s, p, i).pmaps[p].dir.len() == s.pmaps[p].dir.len(),
        collect_step(s, p, i).cfg == s.cfg,
{
    let pde = s.pmaps[p].dir[i];
    let base = frame_of(pde) / 4;
    if !(pde & 1u32 == 0 || table_wired(s.mem, base as int)) {
        let s1 = remove_range_spec(s, p, (i * 0x40_0000) as u32, base as int, base + 1024);
        lemma_remove_range_wf(s, p, (i * 0x40_0000) as u32, base as int, base + 1024);
        assert(dir_ok(s, s.pmaps[p].dir));
        let s2 = collect_step(s, p, i);
        assert(0u32 & 1u32 == 0) by (bit_vector);
        assert forall|q: int| 0 <= q < s2.pmaps.len() implies dir_ok(s2, #[trigger] s2.pmaps[q].dir) by {
            assert(dir_ok(s1, s1.pmaps[q].dir));
            if q == p {
                assert forall|j: int| 0 <= j < s2.pmaps[q].dir.len() && #[trigger] s2.pmaps[q].dir[j] & 1u32 != 0
                    implies frame_ok(s2, frame_of(s2.pmaps[q].dir[j])) by {
                    assert(s2.pmaps[q].dir[j] == s1.pmaps[q].dir[j]);
                }
            }
        }
        assert forall|k: int| 0 <= k < s2.pt_free.len() implies frame_ok(s2, #[trigger] s2.pt_free[k]) by {
            if k < s1.pt_free.len() {
                assert(frame_ok(s1, s1.pt_free[k]));
            }
        }
    }
}

/// `pmap_collect(p)`: reclaim the page tables of `p`'s user space that map
/// nothing wired, removing their mappings.
pub fn pmap_collect(sys: &mut PmapSystem, p: usize)
    requires
        wf(old(sys)@),
        p < old(sys).pmaps.len(),
        p != 0 ==> old(sys)@.pmaps[p as int].dir.len() == 1024,
        p != 0 ==> collect_ok(old(sys)@, p as int, 0, n_user_pdes()),
    ensures
        final(sys)@ == collect_spec(old(sys)@, p as int),
        wf(final(sys)@),
{
    if p == 0 {
        return;
    }
    let ghost s0 = sys@;
    let n = lin2pdenum(VM_MAX_USER_ADDRESS as usize) as usize;
    let mut l2i: usize = 0;
    while l2i < n
        invariant
            l2i <= n,
            n == n_user_pdes(),
            n <= 1024,
            0 < p < sys.pmaps.len(),
            wf(sys@),
            sys@.pmaps[p as int].dir.len() == 1024,
            collect_fold(sys@, p as int, l2i as int, n as int) == collect_fold(s0, p as int, 0, n as int),
            collect_ok(sys@, p as int, l2i as int, n as int),
        decreases n - l2i,
    {
        let ghost before = sys@;
        proof { lemma_collect_step_wf(before, p as int, l2i as int); }
        let pde = sys.pmaps[p].dir[l2i];
        if pde & INTEL_PTE_VALID != 0 {
            let f = pte_to_pa(pde);
            let base = (f / 4) as usize;
            proof {
                assert(dir_ok(before, before.pmaps[p as int].dir));
                lemma_frame_bits(pde, 0);
                assert(base <= 0x4000_0000);
            }
            if !table_has_wired(sys, base) {
                let va = pdenum2lin(l2i as u32) as u32;
                pmap_remove_range(sys, p, va, base, base + NPTES as usize);
                set_pde(sys, p, l2i, 0);
                sys.pt_free.push(f);
                proof {
                    let s2 = collect_step(before, p as int, l2i as int);
                    assert(sys@.pmaps =~= s2.pmaps);
                    assert(sys@ =~= s2);
                }
            }
        }
        l2i += 1;
    }
}

// ─── Back-door mappings ───────────────────────────────────────────

/// Mapping pages `[start, end)` from kernel address `virt` with successive
/// entries from `tmpl`.
pub open spec fn bd_fold(s: SysView, virt: int, tmpl: int, start: int, end: int) -> SysView
    decreases if start < end { end - start } else { 0 },
{
    if start >= end {
        s
    } else {
        let w = match pte_word(s, 0, #[verifier::truncate] (virt as u32)) { Some(w) => w, None => 0 };
        bd_fold(with_word(s, w, #[verifier::truncate] (tmpl as u32)), virt + 4096, tmpl + 4096, start + 4096, end)
    }
}

/// The mapping does not panic: each page has a kernel page table and the
/// addresses stay within 32 bits.
pub open spec fn bd_ok(s: SysView, virt: int, tmpl: int, start: int, end: int) -> bool
    decreases if start < end { end - start } else { 0 },
{
    if start >= end {
        true
    } else {
        let w = match pte_word(s, 0, #[verifier::truncate] (virt as u32)) { Some(w) => w, None => 0 };
        &&& pte_word(s, 0, #[verifier::truncate] (virt as u32)) is Some
        &&& virt + 4096 <= u32::MAX && tmpl + 4096 <= u32::MAX && start + 4096 <= u32::MAX
        &&& bd_ok(with_word(s, w, #[verifier::truncate] (tmpl as u32)), virt + 4096, tmpl + 4096, start + 4096, end)
    }
}

/// Number of pages mapped for `[start, end)`.
pub open spec fn bd_pages(start: int, end: int) -> int
    decreases if start < end { end - start } else { 0 },
{
    if start >= end { 0 } else { 1 + bd_pages(start + 4096, end) }
}

/// The first entry `pmap_map_bd` writes: uncached, valid, writable when asked.
pub open spec fn bd_template(start: u32, prot: i32) -> u32 {
    let t = frame_of(start) | 0x10u32 | 0x8u32 | 1u32;
    if prot & 2i32 != 0 { t | 2u32 } else { t }
}

/// `pmap_map_bd(virt, start, end, prot)`: map the physical pages of
/// `[start, end)` at kernel address `virt`, uncached; returns the address
/// after the last page mapped.
pub fn pmap_map_bd(sys: &mut PmapSystem, virt: u32, start: u32, end: u32, prot: i32) -> (r: u32)
    requires
        wf(old(sys)@),
        bd_ok(old(sys)@, virt as int, bd_template(start, prot) as int, start as int, end as int),
    ensures
        final(sys)@ == bd_fold(old(sys)@, virt as int, bd_template(start, prot) as int, start as int, end as int),
        r == virt + 4096 * bd_pages(start as int, end as int),
        wf(final(sys)@),
{
    let ghost s0 = sys@;
    let mut template = pa_to_pte(start) | INTEL_PTE_NCACHE | INTEL_PTE_WTHRU | INTEL_PTE_VALID;
    if (prot & VM_PROT_WRITE) != 0 {
        template = template | INTEL_PTE_WRITE;
    }
    let ghost t0 = template;
    let mut virt = virt;
    let mut start = start;
    let ghost v0 = virt;
    let ghost st0 = start;
    while start < end
        invariant
            wf(sys@),
            wf(s0),
            sys.pmaps.len() == s0.pmaps.len(),
            bd_fold(sys@, virt as int, template as int, start as int, end as int)
                == bd_fold(s0, v0 as int, t0 as int, st0 as int, end as int),
            bd_ok(sys@, virt as int, template as int, start as int, end as int),
            virt + 4096 * bd_pages(start as int, end as int) == v0 + 4096 * bd_pages(st0 as int, end as int),
            forall|q: int| 0 <= q < s0.pmaps.len() ==> #[trigger] sys@.pmaps[q].dir == s0.pmaps[q].dir,
            sys@.mem.len() == s0.mem.len(),
            sys@.pt_free == s0.pt_free,
            sys@.attrs.len() == sys@.pv.len(),
        decreases if start < end { end - start } else { 0 },
    {
        match pmap_pte(sys, 0, virt) {
            Some(w) => {
                set_word(sys, w, template);
            },
            None => {},
        }
        template = template + 4096;
        virt = virt + 4096;
        start = start + 4096;
    }
    proof { lemma_wf_frame(s0, sys@); }
    virt
}

// ─── Activation ───────────────────────────────────────────────────

/// `pmap_activate(pmap)`: pmap `p` is now in use on the (only) processor;
/// returns the physical address of its directory, which the caller loads
/// into `%cr3`.
pub fn pmap_activate(sys: &mut PmapSystem, p: usize) -> (cr3: u32)
    requires
        p < old(sys).pmaps.len(),
    ensures
        cr3 == old(sys)@.pmaps[p as int].dirbase,
        final(sys)@ == (SysView {
            pmaps: old(sys)@.pmaps.update(p as int, PmapView { cpus_using: 1, ..old(sys)@.pmaps[p as int] }),
            ..old(sys)@
        }),
{
    let ghost s0 = sys@;
    sys.pmaps[p].cpus_using = 1;
    proof { assert(sys@.pmaps =~= s0.pmaps.update(p as int, PmapView { cpus_using: 1, ..s0.pmaps[p as int] })); }
    sys.pmaps[p].dirbase
}

/// `pmap_deactivate(pmap)`: pmap `p` is no longer in use.
pub fn pmap_deactivate(sys: &mut PmapSystem, p: usize)
    requires
        p < old(sys).pmaps.len(),
    ensures
        final(sys)@ == (SysView {
            pmaps: old(sys)@.pmaps.update(p as int, PmapView { cpus_using: 0, ..old(sys)@.pmaps[p as int] }),
            ..old(sys)@
        }),
{
    let ghost s0 = sys@;
    sys.pmaps[p].cpus_using = 0;
    proof { assert(sys@.pmaps =~= s0.pmaps.update(p as int, PmapView { cpus_using: 0, ..s0.pmaps[p as int] })); }
}

/// `pmap_set_page_dir()`: the value to load into `%cr3` to run on the
/// kernel directory.
pub fn pmap_set_page_dir(sys: &PmapSystem) -> (cr3: u32)
    requires
        sys.pmaps.len() >= 1,
    ensures
        cr3 == sys@.pmaps[0].dirbase,
{
    sys.pmaps[0].dirbase
}

/// `pmap_kernel()`: the kernel pmap.
pub fn pmap_kernel() -> (p: usize)
    ensures
        p == 0,
{
    0
}

/// `pmap_resident_count(pmap)`: pages mapped by pmap `p`.
pub fn pmap_resident_count(sys: &PmapSystem, p: usize) -> (r: i32)
    requires
        p < sys.pmaps.len(),
    ensures
        r == sys@.pmaps[p as int].stats.resident_count,
{
    sys.pmaps[p].stats.resident_count
}

/// `intel_prot_to_pte_bits(prot)`: user access, writable when `prot`
/// allows writing.
pub fn intel_prot_to_pte_bits(prot: i32) -> (bits: u32)
    ensures
        bits == (if prot & 2i32 != 0 { 4u32 | 2u32 } else { 4u32 }),
{
    let mut bits: u32 = INTEL_PTE_USER;
    if (prot & VM_PROT_WRITE) != 0 {
        bits = bits | INTEL_PTE_WRITE;
    }
    bits
}

// ─── Page-table walk ──────────────────────────────────────────────

/// The directory slot covering `addr` in pmap `p` (none without a directory).
pub open spec fn pde_slot(s: SysView, p: int, addr: u32) -> Option<int> {
    if s.pmaps[p].dir.len() == 0 { None } else { Some(pde_index(addr as int)) }
}

/// The word of memory holding the page-table entry for `addr` in pmap `p`,
/// when the directory entry covering it is present.
pub open spec fn pte_word(s: SysView, p: int, addr: u32) -> Option<int> {
    match pde_slot(s, p, addr) {
        Some(i) => {
            let pde = s.pmaps[p].dir[i];
            if pde & 1u32 == 0 { None } else { Some(frame_of(pde) / 4 + pte_index(addr as int)) }
        },
        None => None,
    }
}

/// What `pmap_extract` reports for `va`: the physical address it maps to,
/// or 0 when it is not mapped.
pub open spec fn extract_spec(s: SysView, p: int, va: u32) -> u32 {
    match pte_word(s, p, va) {
        None => 0,
        Some(w) => {
            let v = rd(s.mem, w);
            if v & 1u32 == 0 { 0 } else { (frame_of(v) + va % 4096) as u32 }
        },
    }
}

/// `pmap_pde(pmap, addr)`: the directory slot for `addr` (the kernel's
/// addresses are first made linear, which is the identity here).
pub fn pmap_pde(sys: &PmapSystem, p: usize, addr: u32) -> (r: Option<usize>)
    requires
        p < sys.pmaps.len(),
    ensures
        r matches Some(i) ==> pde_slot(sys@, p as int, addr) == Some(i as int),
        r is None ==> pde_slot(sys@, p as int, addr) is None,
{
    let a = if p == 0 { kvtolin(addr) } else { addr };
    if sys.pmaps[p].dir.len() == 0 {
        None
    } else {
        Some(lin2pdenum(a as usize) as usize)
    }
}

/// `pmap_pte(pmap, addr)`: the word of the page-table entry for `addr`, or
/// `None` when the pmap has no directory or the directory entry is absent.
pub fn pmap_pte(sys: &PmapSystem, p: usize, addr: u32) -> (r: Option<usize>)
    requires
        p < sys.pmaps.len(),
        wf(sys@),
    ensures
        r matches Some(w) ==> pte_word(sys@, p as int, addr) == Some(w as int) && w < sys.mem.len(),
        r is None ==> pte_word(sys@, p as int, addr) is None,
{
    proof { assert(dir_ok(sys@, sys@.pmaps[p as int].dir)); }
    match pmap_pde(sys, p, addr) {
        None => None,
        Some(i) => {
            let pde = sys.pmaps[p].dir[i];
            if pde & INTEL_PTE_VALID == 0 {
                None
            } else {
                proof { lemma_frame_bits(pde, 0); }
                Some((pte_to_pa(pde) / 4) as usize + ptenum(addr as usize) as usize)
            }
        },
    }
}

/// `pmap_extract(pmap, va)`: the physical address `va` maps to, 0 if none.
pub fn pmap_extract(sys: &PmapSystem, p: usize, va: u32) -> (r: u32)
    requires
        p < sys.pmaps.len(),
        wf(sys@),
    ensures
        r == extract_spec(sys@, p as int, va),
{
    match pmap_pte(sys, p, va) {
        None => 0,
        Some(w) => {
            let v = read_word(&sys.mem, w);
            if v & INTEL_PTE_VALID == 0 {
                0
            } else {
                let f = pte_to_pa(v);
                proof { lemma_frame_offset(v, va); }
                f + (va & INTEL_OFFMASK)
            }
        },
    }
}

/// The frame of an entry plus the offset of an address within its page
/// stays within 32 bits; the offset mask is the remainder by the page size.
pub proof fn lemma_frame_offset(v: u32, va: u32)
    by (bit_vector)
    ensures
        (v & 0xFFFF_F000u32) + (va & 0xFFFu32) <= 0xFFFF_FFFFu32,
        (v & 0xFFFF_F000u32) + va % 4096 <= 0xFFFF_FFFFu32,
        va & 0xFFFu32 == va % 4096,
{
}

} // verus!
