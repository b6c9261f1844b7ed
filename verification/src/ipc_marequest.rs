//! Msg-accepted requests: a sender asks to be told when the message it
//! could not queue is accepted.  A request is kept in a hash table keyed by
//! the space and the name of the entry it was made on, so that the entry's
//! deallocation or renaming can find it.
//!
//! Requests are named by their index in the table's pool; a freed request
//! keeps its slot, with null space, name and send-once right.  The sending
//! of the msg-accepted notification is reported as an `IpcAction`.

use vstd::prelude::*;
use crate::ipc_object::{
    ipc_port_lookup_notify, ipc_right_reverse, lookup_notify_spec, notify_room, receivers_ok, reverse_spec,
    sends_to, sends_unique,
};
use crate::ipc_right::{
    get_entry, in_use, ipc_entry, ipc_entry_lookup, ipc_port, ipc_space, lookup_in, lookup_spec, names_unique, pv, set_entry,
    space_ok, IpcAction, PortModel,
};
use crate::mach_types::{
    mach_msg_return_t, mach_port_name_t, IE_BITS_MAREQUEST, MACH_MSG_SUCCESS, MACH_PORT_NAME_NULL,
    MACH_PORT_TYPE_SEND_RECEIVE, MACH_SEND_INVALID_NOTIFY, MACH_SEND_NOTIFY_IN_PROGRESS,
};

verus! {

/// `IPC_MAREQUEST_SIZE`: the number of buckets asked for.
pub const IPC_MAREQUEST_SIZE: u32 = 16;

/// A msg-accepted request: the space and name of the entry it was made on
/// (null once cancelled, or when the space held no right to the port) and
/// the send-once right to notify.
#[derive(Clone, Copy, Debug, PartialEq, Eq, Structural)]
pub struct ipc_marequest {
    pub imar_space: u32,
    pub imar_name: mach_port_name_t,
    pub imar_soright: u32,
}

/// The number of requests in one bucket of the table.
#[derive(Clone, Copy, Debug, PartialEq, Eq, Structural)]
pub struct hash_info_bucket_t {
    pub hib_count: u32,
}

/// The table: `imart_mask + 1` buckets, each holding the ids of its
/// requests, newest first; and the pool of requests, by id.
#[derive(Debug)]
pub struct ipc_marequest_table {
    pub imart_mask: u32,
    pub imart_buckets: Vec<Vec<u32>>,
    pub imart_requests: Vec<ipc_marequest>,
}

/// The mathematical table.
pub ghost struct MarequestModel {
    pub mask: u32,
    pub buckets: Seq<Seq<u32>>,
    pub requests: Seq<ipc_marequest>,
}

impl View for ipc_marequest_table {
    type V = MarequestModel;

    open spec fn view(&self) -> MarequestModel {
        MarequestModel {
            mask: self.imart_mask,
            buckets: Seq::new(self.imart_buckets.len() as nat, |i: int| self.imart_buckets[i]@),
            requests: self.imart_requests@,
        }
    }
}

/// `IMAR_HASH(space, name)`: the bucket of a request.
pub open spec fn imar_hash(space: u32, name: u32, mask: u32) -> u32 {
    (space >> 4).wrapping_add(name) & mask
}

proof fn lemma_and_le(x: u32, m: u32)
    by (bit_vector)
    ensures
        x & m <= m,
        x & 0u32 == 0u32,
        1u32 << 0u32 == 1u32,
        16u32 & 15u32 == 0u32,
{
}

/// The table is well formed: one bucket per hash value, and each bucket
/// holds requests that hash to it, by a name.
pub open spec fn table_ok(t: MarequestModel) -> bool {
    &&& t.buckets.len() == t.mask + 1
    &&& t.mask < u32::MAX
    &&& t.requests.len() < u32::MAX
    &&& forall|b: int| 0 <= b < t.buckets.len() ==> (#[trigger] t.buckets[b]).no_duplicates()
    &&& forall|b: int, k: int| 0 <= b < t.buckets.len() && 0 <= k < t.buckets[b].len() ==> {
        let id = #[trigger] t.buckets[b][k];
        &&& id < t.requests.len()
        &&& t.requests[id as int].imar_name != MACH_PORT_NAME_NULL
        &&& imar_hash(t.requests[id as int].imar_space, t.requests[id as int].imar_name, t.mask) == b
    }
}

/// A bucket holds no more requests than the pool.
proof fn lemma_bucket_len(s: Seq<u32>, n: int)
    requires
        s.no_duplicates(),
        forall|k: int| 0 <= k < s.len() ==> s[k] < n,
        0 <= n,
    ensures
        s.len() <= n,
{
    broadcast use vstd::seq_lib::group_seq_properties;
    let si = s.map_values(|x: u32| x as int);
    assert(si.no_duplicates()) by {
        assert forall|i: int, j: int| 0 <= i < si.len() && 0 <= j < si.len() && i != j implies si[i] != si[j] by {
            assert(s[i] != s[j]);
        }
    }
    si.unique_seq_to_set();
    vstd::set_lib::lemma_int_range(0, n);
    assert(si.to_set().subset_of(vstd::set_lib::set_int_range(0, n))) by {
        assert forall|x: int| si.to_set().contains(x) implies vstd::set_lib::set_int_range(0, n).contains(x) by {
            assert(si.contains(x));
            let k = choose|k: int| 0 <= k < si.len() && si[k] == x;
            assert(s[k] < n);
        }
    }
    vstd::set_lib::lemma_len_subset(si.to_set(), vstd::set_lib::set_int_range(0, n));
}

/// Request `id` of the pool is for entry `name` of space `space`.
pub open spec fn matches(reqs: Seq<ipc_marequest>, id: u32, space: u32, name: u32) -> bool {
    reqs[id as int].imar_space == space && reqs[id as int].imar_name == name
}

/// Position `k` of the bucket holds the first request for the entry.
pub open spec fn is_first_match(bucket: Seq<u32>, reqs: Seq<ipc_marequest>, space: u32, name: u32, k: int) -> bool {
    &&& 0 <= k < bucket.len()
    &&& matches(reqs, bucket[k], space, name)
    &&& forall|j: int| 0 <= j < k ==> !matches(reqs, #[trigger] bucket[j], space, name)
}

/// The position of the first request in the bucket for the entry.
pub open spec fn find_in(bucket: Seq<u32>, reqs: Seq<ipc_marequest>, space: u32, name: u32) -> Option<int> {
    if exists|k: int| is_first_match(bucket, reqs, space, name, k) {
        Some(choose|k: int| is_first_match(bucket, reqs, space, name, k))
    } else {
        None
    }
}

proof fn lemma_first_match_unique(bucket: Seq<u32>, reqs: Seq<ipc_marequest>, space: u32, name: u32, k: int, l: int)
    requires
        is_first_match(bucket, reqs, space, name, k),
        is_first_match(bucket, reqs, space, name, l),
    ensures
        k == l,
{
    if k < l {
        assert(!matches(reqs, bucket[k], space, name));
    } else if l < k {
        assert(!matches(reqs, bucket[l], space, name));
    }
}

/// Walk a bucket for the first request for the entry.
fn bucket_find(bucket: &Vec<u32>, reqs: &Vec<ipc_marequest>, space: u32, name: mach_port_name_t) -> (r: Option<usize>)
    requires
        forall|k: int| 0 <= k < bucket.len() ==> #[trigger] bucket[k] < reqs.len(),
    ensures
        match r {
            Some(k) => k < bucket.len() && find_in(bucket@, reqs@, space, name) == Some(k as int),
            None => find_in(bucket@, reqs@, space, name) is None,
        },
{
    let mut k: usize = 0;
    while k < bucket.len()
        invariant
            k <= bucket.len(),
            forall|i: int| 0 <= i < bucket.len() ==> #[trigger] bucket[i] < reqs.len(),
            forall|j: int| 0 <= j < k ==> !matches(reqs@, #[trigger] bucket@[j], space, name),
        decreases bucket.len() - k,
    {
        let id = bucket[k];
        let m = reqs[id as usize];
        if m.imar_space == space && m.imar_name == name {
            proof {
                assert(is_first_match(bucket@, reqs@, space, name, k as int));
                let c = choose|c: int| is_first_match(bucket@, reqs@, space, name, c);
                lemma_first_match_unique(bucket@, reqs@, space, name, k as int, c);
            }
            return Some(k);
        }
        k = k + 1;
    }
    proof {
        if exists|c: int| is_first_match(bucket@, reqs@, space, name, c) {
            let c = choose|c: int| is_first_match(bucket@, reqs@, space, name, c);
            assert(!matches(reqs@, bucket@[c], space, name));
        }
    }
    None
}

/// A request for the entry is in the table.
pub open spec fn linked(t: MarequestModel, space: u32, name: u32) -> bool {
    find_in(t.buckets[imar_hash(space, name, t.mask) as int], t.requests, space, name) is Some
}

/// Take the first request for the entry out of its bucket; returns the
/// table and the request's id.
pub open spec fn unlink(t: MarequestModel, space: u32, name: u32) -> (MarequestModel, u32) {
    let b = imar_hash(space, name, t.mask) as int;
    let k = find_in(t.buckets[b], t.requests, space, name)->0;
    (MarequestModel { buckets: t.buckets.update(b, t.buckets[b].remove(k)), ..t }, t.buckets[b][k])
}

/// `ipc_marequest_cancel`: the request for entry `name` of the space
/// leaves the table and loses its name.
pub open spec fn cancel_spec(t: MarequestModel, space: u32, name: u32) -> MarequestModel {
    let (t1, id) = unlink(t, space, name);
    MarequestModel {
        requests: t1.requests.update(id as int, ipc_marequest { imar_name: MACH_PORT_NAME_NULL, ..t1.requests[id as int] }),
        ..t1
    }
}

/// `ipc_marequest_rename`: the request for entry `oname` of the space moves
/// to the head of the bucket of its new name.
pub open spec fn rename_spec(t: MarequestModel, space: u32, oname: u32, nname: u32) -> MarequestModel {
    let (t1, id) = unlink(t, space, oname);
    let b = imar_hash(space, nname, t.mask) as int;
    MarequestModel {
        requests: t1.requests.update(id as int, ipc_marequest { imar_name: nname, ..t1.requests[id as int] }),
        buckets: t1.buckets.update(b, seq![id] + t1.buckets[b]),
        ..t1
    }
}

/// A request sits in the bucket of its entry, and nowhere else.
proof fn lemma_only_bucket(t: MarequestModel, b: int, k: int, b2: int, k2: int)
    requires
        table_ok(t),
        0 <= b < t.buckets.len(),
        0 <= k < t.buckets[b].len(),
        0 <= b2 < t.buckets.len(),
        0 <= k2 < t.buckets[b2].len(),
        t.buckets[b][k] == t.buckets[b2][k2],
    ensures
        b == b2,
        k == k2,
{
    assert(t.buckets[b][k] == t.buckets[b][k]);
    assert(t.buckets[b2][k2] == t.buckets[b2][k2]);
}

proof fn lemma_unlink(t: MarequestModel, space: u32, name: u32)
    requires
        table_ok(t),
        linked(t, space, name),
    ensures ({
        let b = imar_hash(space, name, t.mask) as int;
        let k = find_in(t.buckets[b], t.requests, space, name)->0;
        let (t1, id) = unlink(t, space, name);
        &&& 0 <= b < t.buckets.len()
        &&& 0 <= k < t.buckets[b].len()
        &&& id < t.requests.len()
        &&& t1.buckets.len() == t.buckets.len()
        &&& forall|b2: int, k2: int| 0 <= b2 < t1.buckets.len() && 0 <= k2 < t1.buckets[b2].len()
            ==> #[trigger] t1.buckets[b2][k2] != id
        &&& forall|b2: int| 0 <= b2 < t1.buckets.len() ==> (#[trigger] t1.buckets[b2]).no_duplicates()
        &&& forall|b2: int, k2: int| 0 <= b2 < t1.buckets.len() && 0 <= k2 < t1.buckets[b2].len() ==> {
            let i = #[trigger] t1.buckets[b2][k2];
            &&& i < t.requests.len()
            &&& t.requests[i as int].imar_name != MACH_PORT_NAME_NULL
            &&& imar_hash(t.requests[i as int].imar_space, t.requests[i as int].imar_name, t.mask) == b2
        }
    }),
{
    let b = imar_hash(space, name, t.mask) as int;
    lemma_and_le((space >> 4).wrapping_add(name), t.mask);
    let k = find_in(t.buckets[b], t.requests, space, name)->0;
    let (t1, id) = unlink(t, space, name);
    let s = t.buckets[b];
    let r = s.remove(k);
    assert(is_first_match(s, t.requests, space, name, k));
    assert(s[k] == t.buckets[b][k]);
    assert(id < t.requests.len());
    assert(t1.buckets.len() == t.buckets.len());
    assert forall|i: int| 0 <= i < r.len() implies #[trigger] r[i] == (if i < k { s[i] } else { s[i + 1] }) by {}
    assert forall|b2: int, k2: int| 0 <= b2 < t1.buckets.len() && 0 <= k2 < t1.buckets[b2].len()
        implies #[trigger] t1.buckets[b2][k2] != id by {
        if b2 == b {
            let k3 = if k2 < k { k2 } else { k2 + 1 };
            assert(r[k2] == s[k3]);
            assert(s.no_duplicates());
        } else {
            if t.buckets[b2][k2] == id {
                lemma_only_bucket(t, b, k, b2, k2);
            }
        }
    }
    assert forall|b2: int| 0 <= b2 < t1.buckets.len() implies (#[trigger] t1.buckets[b2]).no_duplicates() by {
        if b2 == b {
            assert forall|i: int, j: int| 0 <= i < r.len() && 0 <= j < r.len() && i != j implies r[i] != r[j] by {
                let i2 = if i < k { i } else { i + 1 };
                let j2 = if j < k { j } else { j + 1 };
                assert(r[i] == s[i2]);
                assert(r[j] == s[j2]);
            }
        }
    }
    assert forall|b2: int, k2: int| 0 <= b2 < t1.buckets.len() && 0 <= k2 < t1.buckets[b2].len() implies ({
        let i = #[trigger] t1.buckets[b2][k2];
        &&& i < t.requests.len()
        &&& t.requests[i as int].imar_name != MACH_PORT_NAME_NULL
        &&& imar_hash(t.requests[i as int].imar_space, t.requests[i as int].imar_name, t.mask) == b2
    }) by {
        if b2 == b {
            let k3 = if k2 < k { k2 } else { k2 + 1 };
            assert(t1.buckets[b2][k2] == t.buckets[b2][k3]);
        } else {
            assert(t1.buckets[b2][k2] == t.buckets[b2][k2]);
        }
    }
}

/// The request to unlink: its bucket holds ids of the pool.
fn bucket_ids_ok(t: &ipc_marequest_table, b: usize)
    requires
        table_ok(t@),
        b < t.imart_buckets.len(),
    ensures
        forall|k: int| 0 <= k < t.imart_buckets[b as int].len() ==> #[trigger] t.imart_buckets[b as int][k] < t.imart_requests.len(),
{
    assert forall|k: int| 0 <= k < t.imart_buckets[b as int].len() implies #[trigger] t.imart_buckets[b as int][k] < t.imart_requests.len() by {
        assert(t@.buckets[b as int][k] == t.imart_buckets[b as int][k]);
    }
}

/// Take the first request for the entry out of its bucket.
fn unlink_exec(t: &mut ipc_marequest_table, space: u32, name: mach_port_name_t) -> (id: u32)
    requires
        table_ok(old(t)@),
        linked(old(t)@, space, name),
    ensures
        (final(t)@, id) == unlink(old(t)@, space, name),
{
    let b = ((space >> 4).wrapping_add(name) & t.imart_mask) as usize;
    proof { lemma_and_le((space >> 4).wrapping_add(name), t.imart_mask); }
    bucket_ids_ok(t, b);
    let k = match bucket_find(&t.imart_buckets[b], &t.imart_requests, space, name) {
        Some(k) => k,
        None => { proof { assert(false); } 0 },
    };
    let id = t.imart_buckets[b].remove(k);
    proof {
        let (t1, id1) = unlink(old(t)@, space, name);
        assert(t@.buckets =~= t1.buckets);
    }
    id
}

/// `ipc_marequest_cancel`.
pub fn ipc_marequest_cancel(t: &mut ipc_marequest_table, space: &ipc_space, name: mach_port_name_t)
    requires
        space.is_active,
        table_ok(old(t)@),
        linked(old(t)@, space.is_id, name),
    ensures
        final(t)@ == cancel_spec(old(t)@, space.is_id, name),
        table_ok(final(t)@),
{
    proof { lemma_unlink(t@, space.is_id, name); }
    let id = unlink_exec(t, space.is_id, name);
    let m = t.imart_requests[id as usize];
    t.imart_requests.set(id as usize, ipc_marequest { imar_name: MACH_PORT_NAME_NULL, ..m });
    proof {
        let t1 = unlink(old(t)@, space.is_id, name).0;
        assert(t@.requests == t1.requests.update(id as int, ipc_marequest { imar_name: MACH_PORT_NAME_NULL, ..t1.requests[id as int] }));
        assert(t@.buckets == t1.buckets);
        assert forall|b: int, k: int| 0 <= b < t@.buckets.len() && 0 <= k < t@.buckets[b].len() implies ({
            let i = #[trigger] t@.buckets[b][k];
            &&& i < t@.requests.len()
            &&& t@.requests[i as int].imar_name != MACH_PORT_NAME_NULL
            &&& imar_hash(t@.requests[i as int].imar_space, t@.requests[i as int].imar_name, t@.mask) == b
        }) by {
            assert(t1.buckets[b][k] == t@.buckets[b][k]);
        }
    }
}

/// `ipc_marequest_rename`.
pub fn ipc_marequest_rename(t: &mut ipc_marequest_table, space: &ipc_space, oname: mach_port_name_t, nname: mach_port_name_t)
    requires
        table_ok(old(t)@),
        linked(old(t)@, space.is_id, oname),
        nname != MACH_PORT_NAME_NULL,
    ensures
        final(t)@ == rename_spec(old(t)@, space.is_id, oname, nname),
        table_ok(final(t)@),
{
    proof { lemma_unlink(t@, space.is_id, oname); }
    let id = unlink_exec(t, space.is_id, oname);
    let m = t.imart_requests[id as usize];
    t.imart_requests.set(id as usize, ipc_marequest { imar_name: nname, ..m });
    let b = ((space.is_id >> 4).wrapping_add(nname) & t.imart_mask) as usize;
    proof { lemma_and_le((space.is_id >> 4).wrapping_add(nname), t.imart_mask); }
    let ghost t1 = t@;
    t.imart_buckets[b].insert(0, id);
    proof {
        let s = t1.buckets[b as int];
        assert(t@.buckets[b as int] =~= seq![id] + s);
        assert(t@.buckets =~= t1.buckets.update(b as int, seq![id] + s));
        assert(t@.buckets[b as int].no_duplicates()) by {
            assert forall|i: int, j: int| 0 <= i < t@.buckets[b as int].len() && 0 <= j < t@.buckets[b as int].len() && i != j
                implies t@.buckets[b as int][i] != t@.buckets[b as int][j] by {
                if i > 0 {
                    assert(t@.buckets[b as int][i] == s[i - 1]);
                    assert(s[i - 1] == t1.buckets[b as int][i - 1]);
                }
                if j > 0 {
                    assert(t@.buckets[b as int][j] == s[j - 1]);
                    assert(s[j - 1] == t1.buckets[b as int][j - 1]);
                }
            }
        }
        assert forall|b2: int, k: int| 0 <= b2 < t@.buckets.len() && 0 <= k < t@.buckets[b2].len() implies ({
            let i = #[trigger] t@.buckets[b2][k];
            &&& i < t@.requests.len()
            &&& t@.requests[i as int].imar_name != MACH_PORT_NAME_NULL
            &&& imar_hash(t@.requests[i as int].imar_space, t@.requests[i as int].imar_name, t@.mask) == b2
        }) by {
            if b2 == b as int {
                if k > 0 {
                    assert(t@.buckets[b2][k] == t1.buckets[b2][k - 1]);
                }
            } else {
                assert(t@.buckets[b2][k] == t1.buckets[b2][k]);
            }
        }
    }
}

/// `ipc_marequest_info`: the number of buckets, the most that the caller
/// may ask for (no limit), and the number of requests in each of the first
/// `count` buckets (at most all of them).
pub fn ipc_marequest_info(t: &ipc_marequest_table, count: u32) -> (r: (u32, u32, Vec<hash_info_bucket_t>))
    requires
        table_ok(t@),
    ensures
        r.0 == t@.mask + 1,
        r.1 == u32::MAX,
        r.2.len() == if count < t@.mask + 1 { count as int } else { t@.mask + 1 },
        forall|i: int| 0 <= i < r.2.len() ==> (#[trigger] r.2[i]).hib_count == t@.buckets[i].len(),
{
    let size = t.imart_mask + 1;
    let n = if size < count { size } else { count };
    let mut info: Vec<hash_info_bucket_t> = Vec::new();
    let mut i: u32 = 0;
    while i < n
        invariant
            n <= size,
            size == t.imart_mask + 1,
            table_ok(t@),
            i <= n,
            info.len() == i,
            forall|j: int| 0 <= j < i ==> (#[trigger] info[j]).hib_count == t@.buckets[j].len(),
        decreases n - i,
    {
        proof {
            let b = t@.buckets[i as int];
            assert forall|k: int| 0 <= k < b.len() implies b[k] < t@.requests.len() by {
                assert(t@.buckets[i as int][k] == b[k]);
            }
            lemma_bucket_len(b, t@.requests.len() as int);
        }
        let c = t.imart_buckets[i as usize].len() as u32;
        info.push(hash_info_bucket_t { hib_count: c });
        i = i + 1;
    }
    (size, u32::MAX, info)
}

proof fn lemma_round_step(mask: u32, bit: u32, k: u32)
    by (bit_vector)
    requires
        k < 30,
        bit == 1u32 << k,
        mask < 0x4000_0000u32,
        mask & ((bit - 1) as u32) == ((bit - 1) as u32),
    ensures
        (mask | bit) < 0x4000_0000u32,
        (mask | bit) >= mask,
        (mask | bit) & (((bit << 1u32) - 1) as u32) == (((bit << 1u32) - 1) as u32),
        bit << 1u32 == 1u32 << ((k + 1) as u32),
        k == 29 ==> ((mask | bit) + 1) as u32 & (mask | bit) == 0,
{
}

/// The table's size: `n` rounded up to a power of two, and the mask one
/// below it.
fn marequest_size(n: u32) -> (r: (u32, u32))
    requires
        0 < n <= 0x4000_0000,
    ensures
        r.0 == r.1 + 1,
        r.0 & r.1 == 0,
        r.0 >= n,
        n & ((n - 1) as u32) == 0 ==> r.0 == n,
{
    let mut size = n;
    let mut mask = n - 1;
    if size & mask != 0 {
        let mut bit: u32 = 1;
        let ghost mut k: u32 = 0;
        proof { lemma_and_le(mask, 0); }
        loop
            invariant_except_break
                k < 30,
                bit == 1u32 << k,
                mask & ((bit - 1) as u32) == ((bit - 1) as u32),
            invariant
                0 < n <= 0x4000_0000,
                n - 1 <= mask < 0x4000_0000,
            ensures
                size == mask + 1,
                size & mask == 0,
            decreases 30 - k,
        {
            proof { lemma_round_step(mask, bit, k); }
            mask = mask | bit;
            size = mask + 1;
            if size & mask == 0 {
                break;
            }
            bit = bit << 1;
            proof { k = ((k + 1) as u32); }
        }
    }
    (size, mask)
}

/// `ipc_marequest_init`: an empty table whose number of buckets is
/// `IPC_MAREQUEST_SIZE` rounded up to a power of two.
pub fn ipc_marequest_init() -> (t: ipc_marequest_table)
    ensures
        table_ok(t@),
        t@.mask == IPC_MAREQUEST_SIZE - 1,
        t@.requests.len() == 0,
        forall|b: int| 0 <= b < t@.buckets.len() ==> (#[trigger] t@.buckets[b]).len() == 0,
{
    let (size, mask) = marequest_size(IPC_MAREQUEST_SIZE);
    proof { lemma_and_le(16, 15); }
    let mut buckets: Vec<Vec<u32>> = Vec::new();
    let mut i: u32 = 0;
    while i < size
        invariant
            size == 16,
            i <= size,
            buckets.len() == i,
            forall|b: int| 0 <= b < i ==> (#[trigger] buckets[b])@.len() == 0,
        decreases size - i,
    {
        buckets.push(Vec::new());
        i = i + 1;
    }
    let t = ipc_marequest_table { imart_mask: mask, imart_buckets: buckets, imart_requests: Vec::new() };
    proof {
        assert forall|b: int| 0 <= b < t@.buckets.len() implies (#[trigger] t@.buckets[b]).no_duplicates() by {
            assert(t@.buckets[b] == t.imart_buckets[b]@);
        }
        assert forall|b: int, k: int| 0 <= b < t@.buckets.len() && 0 <= k < t@.buckets[b].len() implies ({
            let id = #[trigger] t@.buckets[b][k];
            &&& id < t@.requests.len()
            &&& t@.requests[id as int].imar_name != MACH_PORT_NAME_NULL
            &&& imar_hash(t@.requests[id as int].imar_space, t@.requests[id as int].imar_name, t@.mask) == b
        }) by {
            assert(t@.buckets[b] == t.imart_buckets[b]@);
        }
    }
    t
}

/// `ipc_marequest_create`: a request for port `port`, notifying the port
/// whose receive right the space names `notify` (which gets a send-once
/// right).  When the space names the port, the request is on that entry:
/// it goes into the table and the entry is marked; a marked entry already
/// has one.  Returns the result and the new request's id.
pub open spec fn create_spec(t: MarequestModel, space: ipc_space, ports: Seq<PortModel>, port: u32, notify: u32)
    -> (i32, u32, MarequestModel, Seq<ipc_entry>, Seq<PortModel>)
{
    let ents = space.is_entries@;
    let id = t.requests.len() as u32;
    if !space.is_active {
        (MACH_SEND_INVALID_NOTIFY, 0, t, ents, ports)
    } else {
        match reverse_spec(ents, ports, space.is_id, port) {
            Some(i) => {
                let e = ents[i];
                if e.ie_bits & IE_BITS_MAREQUEST != 0 {
                    (MACH_SEND_NOTIFY_IN_PROGRESS, 0, t, ents, ports)
                } else {
                    let (so, ports1) = lookup_notify_spec(ents, ports, notify);
                    if so == 0 {
                        (MACH_SEND_INVALID_NOTIFY, 0, t, ents, ports1)
                    } else {
                        let b = imar_hash(space.is_id, e.ie_name, t.mask) as int;
                        (MACH_MSG_SUCCESS, id, MarequestModel {
                            buckets: t.buckets.update(b, seq![id] + t.buckets[b]),
                            requests: t.requests.push(ipc_marequest { imar_space: space.is_id, imar_name: e.ie_name, imar_soright: so }),
                            ..t
                        }, ents.update(i, ipc_entry { ie_bits: e.ie_bits | IE_BITS_MAREQUEST, ..e }), ports1)
                    }
                }
            },
            None => {
                let (so, ports1) = lookup_notify_spec(ents, ports, notify);
                if so == 0 {
                    (MACH_SEND_INVALID_NOTIFY, 0, t, ents, ports1)
                } else {
                    (MACH_MSG_SUCCESS, id, MarequestModel {
                        requests: t.requests.push(ipc_marequest { imar_space: space.is_id, imar_name: MACH_PORT_NAME_NULL, imar_soright: so }),
                        ..t
                    }, ents, ports1)
                }
            },
        }
    }
}

/// What creating a request relies on: a well-formed table with room for
/// another id, a consistent space, and room for the send-once right.
pub open spec fn create_ok(t: MarequestModel, space: ipc_space, ports: Seq<PortModel>, port: u32, notify: u32) -> bool {
    &&& table_ok(t)
    &&& t.requests.len() + 1 < u32::MAX
    &&& 0 < port < ports.len()
    &&& space_ok(space, ports)
    &&& sends_unique(space.is_entries@)
    &&& receivers_ok(space, ports)
    &&& notify_room(space.is_entries@, ports, notify)
}

/// The bucket the new request goes into holds ids below its own.
proof fn lemma_push_head(t: MarequestModel, b: int)
    requires
        table_ok(t),
        0 <= b < t.buckets.len(),
    ensures
        (seq![t.requests.len() as u32] + t.buckets[b]).no_duplicates(),
{
    let s = seq![t.requests.len() as u32] + t.buckets[b];
    assert forall|i: int, j: int| 0 <= i < s.len() && 0 <= j < s.len() && i != j implies s[i] != s[j] by {
        if i > 0 {
            assert(s[i] == t.buckets[b][i - 1]);
        }
        if j > 0 {
            assert(s[j] == t.buckets[b][j - 1]);
        }
    }
}

/// `ipc_marequest_create`.
pub fn ipc_marequest_create(
    t: &mut ipc_marequest_table,
    space: &mut ipc_space,
    ports: &mut Vec<ipc_port>,
    port: u32,
    notify: mach_port_name_t,
) -> (r: (mach_msg_return_t, u32))
    requires
        create_ok(old(t)@, *old(space), pv(*old(ports)), port, notify),
    ensures
        (r.0, r.1, final(t)@, final(space).is_entries@, pv(*final(ports)))
            == create_spec(old(t)@, *old(space), pv(*old(ports)), port, notify),
        table_ok(final(t)@),
        final(space).is_active == old(space).is_active,
        final(space).is_id == old(space).is_id,
        final(ports).len() == old(ports).len(),
{
    if !space.is_active {
        return (MACH_SEND_INVALID_NOTIFY, 0);
    }
    let id = t.imart_requests.len() as u32;
    match ipc_right_reverse(space, ports, port) {
        Some((name, i)) => {
            let e = get_entry(space, i);
            proof {
                let ents = space.is_entries@;
                assert(in_use(ents[i as int]));
            }
            if e.ie_bits & IE_BITS_MAREQUEST != 0 {
                return (MACH_SEND_NOTIFY_IN_PROGRESS, 0);
            }
            let so = ipc_port_lookup_notify(space, ports, notify);
            if so == 0 {
                return (MACH_SEND_INVALID_NOTIFY, 0);
            }
            set_entry(space, i, ipc_entry { ie_bits: e.ie_bits | IE_BITS_MAREQUEST, ..e });
            let ghost t0 = t@;
            t.imart_requests.push(ipc_marequest { imar_space: space.is_id, imar_name: name, imar_soright: so });
            let b = ((space.is_id >> 4).wrapping_add(name) & t.imart_mask) as usize;
            proof {
                lemma_and_le((space.is_id >> 4).wrapping_add(name), t.imart_mask);
                lemma_push_head(t0, b as int);
            }
            let ghost t1 = t@;
            t.imart_buckets[b].insert(0, id);
            proof {
                assert(t@.buckets[b as int] =~= seq![id] + t0.buckets[b as int]);
                assert(t@.buckets =~= t0.buckets.update(b as int, seq![id] + t0.buckets[b as int]));
                assert forall|b2: int, k: int| 0 <= b2 < t@.buckets.len() && 0 <= k < t@.buckets[b2].len() implies ({
                    let j = #[trigger] t@.buckets[b2][k];
                    &&& j < t@.requests.len()
                    &&& t@.requests[j as int].imar_name != MACH_PORT_NAME_NULL
                    &&& imar_hash(t@.requests[j as int].imar_space, t@.requests[j as int].imar_name, t@.mask) == b2
                }) by {
                    if b2 == b as int {
                        if k > 0 {
                            assert(t@.buckets[b2][k] == t0.buckets[b2][k - 1]);
                        }
                    } else {
                        assert(t@.buckets[b2][k] == t0.buckets[b2][k]);
                    }
                }
            }
            (MACH_MSG_SUCCESS, id)
        },
        None => {
            let so = ipc_port_lookup_notify(space, ports, notify);
            if so == 0 {
                return (MACH_SEND_INVALID_NOTIFY, 0);
            }
            let ghost t0 = t@;
            t.imart_requests.push(ipc_marequest { imar_space: space.is_id, imar_name: MACH_PORT_NAME_NULL, imar_soright: so });
            proof {
                assert(t@.buckets =~= t0.buckets);
                assert forall|b2: int, k: int| 0 <= b2 < t@.buckets.len() && 0 <= k < t@.buckets[b2].len() implies ({
                    let j = #[trigger] t@.buckets[b2][k];
                    &&& j < t@.requests.len()
                    &&& t@.requests[j as int].imar_name != MACH_PORT_NAME_NULL
                    &&& imar_hash(t@.requests[j as int].imar_space, t@.requests[j as int].imar_name, t@.mask) == b2
                }) by {
                    assert(t@.buckets[b2][k] == t0.buckets[b2][k]);
                }
            }
            (MACH_MSG_SUCCESS, id)
        },
    }
}

/// The slot of a freed request.
pub open spec fn freed_request() -> ipc_marequest {
    ipc_marequest { imar_space: 0, imar_name: MACH_PORT_NAME_NULL, imar_soright: 0 }
}

/// `ipc_marequest_destroy`: the message the request was made for was
/// accepted or destroyed.  A request still on an entry leaves the table,
/// and the entry, if the space is still active, loses its mark; the request
/// is freed and a msg-accepted notification goes to its send-once right,
/// naming the entry (null when the request was on none, or the space is
/// dead).
pub open spec fn destroy_spec(t: MarequestModel, space: ipc_space, acts: Seq<IpcAction>, id: u32)
    -> (MarequestModel, Seq<ipc_entry>, Seq<IpcAction>)
{
    let m = t.requests[id as int];
    let ents = space.is_entries@;
    if m.imar_name == MACH_PORT_NAME_NULL {
        (MarequestModel { requests: t.requests.update(id as int, freed_request()), ..t }, ents,
            acts.push(IpcAction::NotifyMsgAccepted { notify: m.imar_soright, name: MACH_PORT_NAME_NULL }))
    } else {
        let t1 = unlink(t, m.imar_space, m.imar_name).0;
        let t2 = MarequestModel { requests: t1.requests.update(id as int, freed_request()), ..t1 };
        if space.is_active {
            let i = lookup_in(ents, m.imar_name)->0;
            (t2, ents.update(i, ipc_entry { ie_bits: ents[i].ie_bits & !IE_BITS_MAREQUEST, ..ents[i] }),
                acts.push(IpcAction::NotifyMsgAccepted { notify: m.imar_soright, name: m.imar_name }))
        } else {
            (t2, ents, acts.push(IpcAction::NotifyMsgAccepted { notify: m.imar_soright, name: MACH_PORT_NAME_NULL }))
        }
    }
}

/// What destroying request `id` relies on: it is in the pool and made in
/// this space; if it is on an entry, it is the first request in its bucket
/// for that entry, and in an active space the entry is there, marked, and
/// holds send or receive rights.
pub open spec fn destroy_ok(t: MarequestModel, space: ipc_space, id: u32) -> bool {
    let m = t.requests[id as int];
    &&& table_ok(t)
    &&& id < t.requests.len()
    &&& space.is_id == m.imar_space
    &&& names_unique(space)
    &&& m.imar_name != MACH_PORT_NAME_NULL ==> {
        let b = imar_hash(m.imar_space, m.imar_name, t.mask) as int;
        let k = find_in(t.buckets[b], t.requests, m.imar_space, m.imar_name);
        &&& k is Some
        &&& t.buckets[b][k->0] == id
        &&& space.is_active ==> {
            &&& lookup_spec(space, m.imar_name) is Some
            &&& space.is_entries[lookup_spec(space, m.imar_name)->0].ie_bits & IE_BITS_MAREQUEST != 0
            &&& space.is_entries[lookup_spec(space, m.imar_name)->0].ie_bits & MACH_PORT_TYPE_SEND_RECEIVE != 0
        }
    }
}

/// Free request `id`: its slot empties.
fn free_request(t: &mut ipc_marequest_table, id: u32)
    requires
        table_ok(old(t)@),
        id < old(t)@.requests.len(),
        forall|b: int, k: int| 0 <= b < old(t)@.buckets.len() && 0 <= k < old(t)@.buckets[b].len()
            ==> #[trigger] old(t)@.buckets[b][k] != id,
    ensures
        final(t)@ == (MarequestModel { requests: old(t)@.requests.update(id as int, freed_request()), ..old(t)@ }),
        table_ok(final(t)@),
{
    t.imart_requests.set(id as usize, ipc_marequest { imar_space: 0, imar_name: MACH_PORT_NAME_NULL, imar_soright: 0 });
    proof {
        let t0 = old(t)@;
        assert(t@.buckets =~= t0.buckets);
        assert forall|b2: int, k: int| 0 <= b2 < t@.buckets.len() && 0 <= k < t@.buckets[b2].len() implies ({
            let j = #[trigger] t@.buckets[b2][k];
            &&& j < t@.requests.len()
            &&& t@.requests[j as int].imar_name != MACH_PORT_NAME_NULL
            &&& imar_hash(t@.requests[j as int].imar_space, t@.requests[j as int].imar_name, t@.mask) == b2
        }) by {
            assert(t@.buckets[b2][k] == t0.buckets[b2][k]);
        }
    }
}

/// `ipc_marequest_destroy`.
pub fn ipc_marequest_destroy(t: &mut ipc_marequest_table, space: &mut ipc_space, acts: &mut Vec<IpcAction>, id: u32)
    requires
        destroy_ok(old(t)@, *old(space), id),
    ensures
        (final(t)@, final(space).is_entries@, final(acts)@) == destroy_spec(old(t)@, *old(space), old(acts)@, id),
        table_ok(final(t)@),
        final(space).is_active == old(space).is_active,
        final(space).is_id == old(space).is_id,
{
    let m = t.imart_requests[id as usize];
    let mut name = m.imar_name;
    if name != MACH_PORT_NAME_NULL {
        proof {
            lemma_unlink(t@, m.imar_space, m.imar_name);
        }
        let this = unlink_exec(t, m.imar_space, name);
        if space.is_active {
            match ipc_entry_lookup(space, name) {
                Some(i) => {
                    let e = get_entry(space, i);
                    set_entry(space, i, ipc_entry { ie_bits: e.ie_bits & !IE_BITS_MAREQUEST, ..e });
                },
                None => {
                    proof { assert(false); }
                },
            }
        } else {
            name = MACH_PORT_NAME_NULL;
        }
        free_request(t, this);
    } else {
        proof {
            assert forall|b: int, k: int| 0 <= b < t@.buckets.len() && 0 <= k < t@.buckets[b].len()
                implies #[trigger] t@.buckets[b][k] != id by {
                if t@.buckets[b][k] == id {
                    assert(t@.requests[id as int].imar_name != MACH_PORT_NAME_NULL);
                }
            }
        }
        free_request(t, id);
    }
    acts.push(IpcAction::NotifyMsgAccepted { notify: m.imar_soright, name });
}

proof fn lemma_mark_bits(b: u32)
    by (bit_vector)
    ensures
        (b | 0x0020_0000u32) & 0x001f_0000u32 == b & 0x001f_0000u32,
        (b | 0x0020_0000u32) & 0x0020_0000u32 != 0,
        (b | 0x0020_0000u32) & 0x0003_0000u32 == b & 0x0003_0000u32,
        b & 0x0020_0000u32 == 0 ==> (b | 0x0020_0000u32) & !0x0020_0000u32 == b,
        b & 0x0001_0000u32 != 0 ==> b & 0x0003_0000u32 != 0,
        b & 0x0002_0000u32 != 0 ==> b & 0x0003_0000u32 != 0,
{
}

/// Destroying the request that was just made on an entry undoes the
/// making: the table's buckets and the space's entries are as they were
/// before, and a msg-accepted notification naming the entry goes to the
/// send-once right the request was given.  `after` is the space once the
/// request was made.
pub proof fn law_create_then_destroy(
    t: MarequestModel,
    space: ipc_space,
    ports: Seq<PortModel>,
    port: u32,
    notify: u32,
    after: ipc_space,
    acts: Seq<IpcAction>,
)
    requires
        create_ok(t, space, ports, port, notify),
        create_spec(t, space, ports, port, notify).0 == MACH_MSG_SUCCESS,
        reverse_spec(space.is_entries@, ports, space.is_id, port) is Some,
        after.is_entries@ == create_spec(t, space, ports, port, notify).3,
        after.is_active == space.is_active,
        after.is_id == space.is_id,
    ensures ({
        let (mr, id, t1, ents1, ports1) = create_spec(t, space, ports, port, notify);
        let i = reverse_spec(space.is_entries@, ports, space.is_id, port)->0;
        let so = lookup_notify_spec(space.is_entries@, ports, notify).0;
        let (t2, ents2, acts2) = destroy_spec(t1, after, acts, id);
        &&& destroy_ok(t1, after, id)
        &&& t2.buckets == t.buckets
        &&& ents2 == space.is_entries@
        &&& acts2 == acts.push(IpcAction::NotifyMsgAccepted { notify: so, name: space.is_entries[i].ie_name })
    }),
{
    let (mr, id, t1, ents1, ports1) = create_spec(t, space, ports, port, notify);
    let ents = space.is_entries@;
    let i = reverse_spec(ents, ports, space.is_id, port)->0;
    let e = ents[i];
    let name = e.ie_name;
    let so = lookup_notify_spec(ents, ports, notify).0;
    let b = imar_hash(space.is_id, name, t.mask) as int;
    lemma_and_le((space.is_id >> 4).wrapping_add(name), t.mask);
    lemma_mark_bits(e.ie_bits);
    // The entry the request is on: in use, and holding send or receive rights.
    let q = ports[port as int];
    if q.receiver == space.is_id {
        assert(in_use(ents[i]) && ents[i].ie_name == q.receiver_name);
        assert(ents[i].ie_bits & 0x0002_0000u32 != 0);
    } else {
        assert(sends_to(ents[i], port));
    }
    assert(0 <= i < ents.len());
    assert(in_use(e));
    assert(e.ie_bits & 0x0003_0000u32 != 0);
    assert(e.ie_bits & IE_BITS_MAREQUEST == 0);
    // The space after: same names in use.
    assert(after.is_entries@ == ents.update(i, ipc_entry { ie_bits: e.ie_bits | IE_BITS_MAREQUEST, ..e }));
    assert(in_use(after.is_entries[i]));
    assert(names_unique(after)) by {
        assert forall|x: int, y: int| 0 <= x < y < after.is_entries.len() && in_use(after.is_entries[x]) && in_use(after.is_entries[y])
            implies after.is_entries[x].ie_name != after.is_entries[y].ie_name by {
            assert(in_use(ents[x]) && in_use(ents[y]));
            assert(ents[x].ie_name != ents[y].ie_name);
        }
    }
    // The request is first in its bucket.
    assert(t1.buckets[b] == seq![id] + t.buckets[b]);
    assert(is_first_match(t1.buckets[b], t1.requests, space.is_id, name, 0));
    let c = choose|c: int| is_first_match(t1.buckets[b], t1.requests, space.is_id, name, c);
    lemma_first_match_unique(t1.buckets[b], t1.requests, space.is_id, name, 0, c);
    // The entry is found by its name.
    assert(in_use(after.is_entries[i]) && after.is_entries[i].ie_name == name);
    let l = lookup_spec(after, name)->0;
    assert(l == i) by {
        if l != i {
            if l < i {
                assert(after.is_entries[l].ie_name != after.is_entries[i].ie_name);
            } else {
                assert(after.is_entries[i].ie_name != after.is_entries[l].ie_name);
            }
        }
    }
    let (t2, ents2, acts2) = destroy_spec(t1, after, acts, id);
    assert(t1.buckets[b].remove(0) =~= t.buckets[b]);
    assert(t2.buckets =~= t.buckets);
    assert(ents2 =~= ents);
}

} // verus!
