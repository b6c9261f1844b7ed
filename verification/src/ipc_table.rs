//! Sizes of the growable IPC tables (dead-name request tables).

use vstd::prelude::*;
use crate::mach_types::PAGE_SIZE;

verus! {

/// Number of entries of the table of dead-name request table sizes.
pub const IPC_TABLE_DNREQUESTS_SIZE: u32 = 64;

/// Size in bytes of one dead-name request slot.
pub const IPC_PORT_REQUEST_SIZE: u32 = 8;

/// The step from the `k`-th candidate table size to the next, once a page
/// is reached: fifteen steps of one page, fifteen of two pages, fifteen of
/// four, then eight pages for good.
pub open spec fn step(k: nat) -> int {
    let b = (k - 12) / 15;
    if b == 0 { 4096 } else if b == 1 { 8192 } else if b == 2 { 16384 } else { 32768 }
}

/// The `k`-th candidate table size in bytes: the powers of two up to a
/// page, then the page steps.
pub open spec fn cand(k: nat) -> int
    decreases k,
{
    if k == 0 {
        1
    } else if k <= 12 {
        2 * cand((k - 1) as nat)
    } else {
        cand((k - 1) as nat) + step((k - 1) as nat)
    }
}

/// The first candidates: the powers of two up to a page.
pub proof fn lemma_cand_small()
    ensures
        cand(0) == 1 && cand(1) == 2 && cand(2) == 4 && cand(3) == 8 && cand(4) == 16 && cand(5) == 32,
        cand(6) == 64 && cand(7) == 128 && cand(8) == 256 && cand(9) == 512 && cand(10) == 1024,
        cand(11) == 2048 && cand(12) == 4096,
{
    assert(cand(0) == 1);
    assert(cand(1) == 2);
    assert(cand(2) == 4);
    assert(cand(3) == 8);
    assert(cand(4) == 16);
    assert(cand(5) == 32);
    assert(cand(6) == 64);
    assert(cand(7) == 128);
    assert(cand(8) == 256);
    assert(cand(9) == 512);
    assert(cand(10) == 1024);
    assert(cand(11) == 2048);
    assert(cand(12) == 4096);
}

pub proof fn lemma_cand_step(k: nat)
    ensures
        cand(k + 1) > cand(k) >= 1,
        k < 12 ==> cand(k) < 4096 && cand(k + 1) == 2 * cand(k),
        k >= 12 ==> cand(k) >= 4096 && cand(k + 1) == cand(k) + step(k),
        cand(k) <= 32768 * k + 4096,
    decreases k,
{
    lemma_cand_small();
    if k > 12 {
        lemma_cand_step((k - 1) as nat);
    }
}

pub proof fn lemma_cand_mono(i: nat, j: nat)
    requires
        i <= j,
    ensures
        cand(i) <= cand(j),
        i < j ==> cand(i) < cand(j),
    decreases j - i,
{
    if i < j {
        lemma_cand_mono(i, (j - 1) as nat);
        lemma_cand_step((j - 1) as nat);
    }
}

/// The first candidate, from the `k`-th on, of at least `m` bytes.
pub open spec fn first_ge(m: int, k: nat) -> nat
    decreases (if m > cand(k) { m - cand(k) } else { 0 }),
{
    if cand(k) >= m {
        k
    } else {
        proof { lemma_cand_step(k); }
        first_ge(m, k + 1)
    }
}

pub proof fn lemma_first_ge(m: int, k: nat)
    ensures
        first_ge(m, k) >= k,
        cand(first_ge(m, k)) >= m,
        forall|j: nat| k <= j < first_ge(m, k) ==> cand(j) < m,
    decreases (if m > cand(k) { m - cand(k) } else { 0 }),
{
    if cand(k) < m {
        lemma_cand_step(k);
        lemma_first_ge(m, k + 1);
    }
}

/// `ipc_table_fill(its, num, min, elemsize)`: `num` table sizes, in
/// elements of `elemsize` bytes: the successive candidate sizes from the
/// first of at least `min` elements.
pub fn ipc_table_fill(num: u32, min: u32, elemsize: u32) -> (its: Vec<u32>)
    requires
        min * elemsize <= u32::MAX,
        num > 0 ==> elemsize > 0,
        cand((first_ge(min * elemsize, 0) + num) as nat) <= u32::MAX,
    ensures
        its.len() == num,
        forall|i: int| 0 <= i < num ==> its[i] == cand((first_ge(min * elemsize, 0) + i) as nat) / elemsize as int,
{
    let minsize: u32 = min * elemsize;
    let ghost k0 = first_ge(minsize as int, 0);
    proof { lemma_first_ge(minsize as int, 0); }
    let mut its: Vec<u32> = Vec::new();
    let mut index: u32 = 0;
    let mut size: u32 = 1;
    let ghost mut k: nat = 0;
    while index < num && size < PAGE_SIZE
        invariant
            k <= 12,
            size == cand(k),
            minsize == min * elemsize,
            k0 == first_ge(minsize as int, 0),
            cand(k0) >= minsize,
            forall|j: nat| j < k0 ==> cand(j) < minsize,
            index == (if k > k0 { k - k0 } else { 0 }),
            index <= num,
            its.len() == index,
            num > 0 ==> elemsize > 0,
            cand((k0 + num) as nat) <= u32::MAX,
            forall|i: int| 0 <= i < index ==> its[i] == cand((k0 + i) as nat) / elemsize as int,
        decreases 12 - k,
    {
        proof {
            lemma_cand_step(k);
            lemma_cand_mono(k + 1, (k0 + num) as nat);
            if k >= k0 {
                lemma_cand_mono(k0, k);
            }
        }
        if size >= minsize {
            its.push(size / elemsize);
            index += 1;
        }
        size = size * 2;
        proof { k = k + 1; }
    }
    proof { lemma_cand_small(); if k < 12 { lemma_cand_mono(k, 11); } }
    let mut incrsize: u32 = PAGE_SIZE;
    let ghost mut b: nat = 0;
    while index < num
        invariant
            index < num ==> k == 12 + 15 * b,
            k >= 12 || index == num,
            size == cand(k),
            incrsize == (if b == 0 { 4096int } else if b == 1 { 8192 } else if b == 2 { 16384 } else { 32768 }),
            minsize == min * elemsize,
            k0 == first_ge(minsize as int, 0),
            cand(k0) >= minsize,
            forall|j: nat| j < k0 ==> cand(j) < minsize,
            index == (if k > k0 { k - k0 } else { 0 }),
            index <= num,
            its.len() == index,
            num > 0 ==> elemsize > 0,
            cand((k0 + num) as nat) <= u32::MAX,
            forall|i: int| 0 <= i < index ==> its[i] == cand((k0 + i) as nat) / elemsize as int,
        decreases k0 + num - k,
    {
        let mut period: u32 = 0;
        while period < 15 && index < num
            invariant
                period <= 15,
                k == 12 + 15 * b + period,
                size == cand(k),
                incrsize == (if b == 0 { 4096int } else if b == 1 { 8192 } else if b == 2 { 16384 } else { 32768 }),
                minsize == min * elemsize,
                k0 == first_ge(minsize as int, 0),
                cand(k0) >= minsize,
                forall|j: nat| j < k0 ==> cand(j) < minsize,
                index == (if k > k0 { k - k0 } else { 0 }),
                index <= num,
                its.len() == index,
                num > 0 ==> elemsize > 0,
                cand((k0 + num) as nat) <= u32::MAX,
                forall|i: int| 0 <= i < index ==> its[i] == cand((k0 + i) as nat) / elemsize as int,
            decreases 15 - period,
        {
            proof {
                lemma_cand_step(k);
                lemma_cand_mono(k + 1, (k0 + num) as nat);
                if k >= k0 {
                    lemma_cand_mono(k0, k);
                }
                assert((k - 12) / 15 == b) by (nonlinear_arith)
                    requires k == 12 + 15 * b + period, period < 15;
            }
            if size >= minsize {
                its.push(size / elemsize);
                index += 1;
            }
            period += 1;
            size = size + incrsize;
            proof { k = k + 1; }
        }
        if incrsize < PAGE_SIZE * 8 {
            incrsize = incrsize * 2;
        }
        proof { b = b + 1; }
    }
    its
}

/// `ipc_table_init()`: the sizes of dead-name request tables, the last of
/// them 0 to mark the end.
pub fn ipc_table_init() -> (its: Vec<u32>)
    ensures
        its.len() == IPC_TABLE_DNREQUESTS_SIZE,
        its[IPC_TABLE_DNREQUESTS_SIZE - 1] == 0,
        forall|i: int| 0 <= i < IPC_TABLE_DNREQUESTS_SIZE - 1 ==>
            its[i] == cand((first_ge(2 * IPC_PORT_REQUEST_SIZE, 0) + i) as nat) / IPC_PORT_REQUEST_SIZE as int,
{
    proof {
        lemma_first_ge(16, 0);
        assert(cand(4) == 16) by {
            lemma_cand_step(0);
            lemma_cand_step(1);
            lemma_cand_step(2);
            lemma_cand_step(3);
        }
        let k0 = first_ge(16, 0);
        lemma_cand_mono((k0 + 63) as nat, 67);
        lemma_cand_step(67);
    }
    let mut its = ipc_table_fill(IPC_TABLE_DNREQUESTS_SIZE - 1, 2, IPC_PORT_REQUEST_SIZE);
    its.push(0);
    its
}

} // verus!
