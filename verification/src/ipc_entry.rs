//! Allocating and freeing the translation entries of a space.
//!
//! A space's entries vector is its name map: an entry whose type bits are
//! zero stands on the free list, keeping its name for reuse.  Free entries
//! are reused in the order of their position in the vector.  A name for a
//! brand-new entry comes from the radix tree's key allocator, which is not
//! part of this library: the caller hands it in as `fresh`.

use vstd::prelude::*;
use crate::ipc_right::{freed, in_use, ipc_entry, ipc_space, ie_bits_type};
use crate::mach_types::{
    kern_return_t, mach_port_name_t, KERN_INVALID_TASK, KERN_NO_SPACE, KERN_SUCCESS,
    MACH_PORT_NAME_DEAD, MACH_PORT_NAME_NULL, MACH_PORT_TYPE_NONE,
};

verus! {

/// A valid name: neither null nor dead.
pub open spec fn name_valid(name: u32) -> bool {
    name != MACH_PORT_NAME_NULL && name != MACH_PORT_NAME_DEAD
}

/// Free entries are clean: no bits, no object, no request, and a valid
/// name to hand out again.
pub open spec fn free_ok(entries: Seq<ipc_entry>) -> bool {
    forall|i: int| 0 <= i < entries.len() && !#[trigger] in_use(entries[i]) ==> {
        &&& entries[i].ie_bits == 0
        &&& entries[i].ie_object == 0
        &&& entries[i].ie_request == 0
        &&& name_valid(entries[i].ie_name)
    }
}

/// Some entry of the map, in use or free, carries `name`.
pub open spec fn name_used(entries: Seq<ipc_entry>, name: u32) -> bool {
    exists|i: int| 0 <= i < entries.len() && #[trigger] entries[i].ie_name == name
}

/// Every entry of the map carries its own name.
pub open spec fn keys_unique(entries: Seq<ipc_entry>) -> bool {
    forall|i: int, j: int| #![trigger entries[i], entries[j]]
        0 <= i < j < entries.len() ==> entries[i].ie_name != entries[j].ie_name
}

/// Is entry `i` the first free one?
pub open spec fn is_first_free(entries: Seq<ipc_entry>, i: int) -> bool {
    &&& 0 <= i < entries.len()
    &&& !in_use(entries[i])
    &&& forall|j: int| 0 <= j < i ==> #[trigger] in_use(entries[j])
}

/// The head of the free list: the first free entry, if any.
pub open spec fn first_free(entries: Seq<ipc_entry>) -> Option<int> {
    if exists|i: int| is_first_free(entries, i) {
        Some(choose|i: int| is_first_free(entries, i))
    } else {
        None
    }
}

pub proof fn lemma_first_free_unique(entries: Seq<ipc_entry>, i: int)
    requires
        is_first_free(entries, i),
    ensures
        first_free(entries) == Some(i),
{
    let k = choose|k: int| is_first_free(entries, k);
    if k < i {
        assert(in_use(entries[k]));
    } else if i < k {
        assert(in_use(entries[i]));
    }
}

/// A free entry anywhere means the free list has a head.
pub proof fn lemma_some_free(entries: Seq<ipc_entry>, k: int)
    requires
        0 <= k < entries.len(),
        !in_use(entries[k]),
    ensures
        first_free(entries) is Some,
        !in_use(entries[first_free(entries)->0]),
        0 <= first_free(entries)->0 < entries.len(),
    decreases k,
{
    if forall|j: int| 0 <= j < k ==> #[trigger] in_use(entries[j]) {
        assert(is_first_free(entries, k));
    } else {
        let j = choose|j: int| 0 <= j < k && !in_use(entries[j]);
        lemma_some_free(entries, j);
    }
    let i = choose|i: int| is_first_free(entries, i);
    assert(is_first_free(entries, i));
}

/// The head of the free list, when there is one, is a free entry.
pub proof fn lemma_first_free_is(entries: Seq<ipc_entry>)
    ensures
        first_free(entries) is Some ==> is_first_free(entries, first_free(entries)->0),
{
}

pub proof fn lemma_no_free(entries: Seq<ipc_entry>)
    requires
        forall|j: int| 0 <= j < entries.len() ==> #[trigger] in_use(entries[j]),
    ensures
        first_free(entries) is None,
{
}

/// The entries once the head of the free list is taken (its request
/// cleared), with its position.
pub open spec fn get_spec(entries: Seq<ipc_entry>, i: int) -> Seq<ipc_entry> {
    entries.update(i, ipc_entry { ie_request: 0, ..entries[i] })
}

/// The entries once one is allocated, with its position: the head of the
/// free list, or else a new entry named `fresh` at the end.
pub open spec fn alloc_spec(entries: Seq<ipc_entry>, fresh: u32) -> (Seq<ipc_entry>, int) {
    match first_free(entries) {
        Some(i) => (get_spec(entries, i), i),
        None => (
            entries.push(ipc_entry { ie_name: fresh, ie_bits: 0, ie_object: 0, ie_request: 0 }),
            entries.len() as int,
        ),
    }
}

/// The position of the entry of the map, in use or free, named `name`.
pub open spec fn key_lookup(entries: Seq<ipc_entry>, name: u32) -> Option<int> {
    if name_used(entries, name) {
        Some(choose|i: int| 0 <= i < entries.len() && entries[i].ie_name == name)
    } else {
        None
    }
}

/// The entries once `name` is allocated, with its position: a new entry
/// when the map lacks the name, the entry itself when it is in use, and a
/// free entry taken off the free list otherwise.
pub open spec fn alloc_name_spec(entries: Seq<ipc_entry>, name: u32) -> (Seq<ipc_entry>, int) {
    match key_lookup(entries, name) {
        None => (
            entries.push(ipc_entry { ie_name: name, ie_bits: 0, ie_object: 0, ie_request: 0 }),
            entries.len() as int,
        ),
        Some(i) => if in_use(entries[i]) {
            (entries, i)
        } else {
            (entries.update(i, ipc_entry { ie_bits: 0, ie_request: 0, ..entries[i] }), i)
        },
    }
}

/// `ipc_entry_get`: take the head of the free list of an active space,
/// returning its name and position; `KERN_NO_SPACE` when the list is
/// empty.  The entry leaves the free list once the caller gives it a
/// right, which callers do before anything else allocates.
pub fn ipc_entry_get(space: &mut ipc_space) -> (r: (kern_return_t, mach_port_name_t, usize))
    requires
        old(space).is_active,
        free_ok(old(space).is_entries@),
    ensures
        final(space).is_active == old(space).is_active,
        final(space).is_id == old(space).is_id,
        match first_free(old(space).is_entries@) {
            None => r.0 == KERN_NO_SPACE && *final(space) == *old(space),
            Some(i) => {
                &&& r == (KERN_SUCCESS, old(space).is_entries[i].ie_name, i as usize)
                &&& final(space).is_entries@ == get_spec(old(space).is_entries@, i)
            },
        },
{
    let mut i: usize = 0;
    while i < space.is_entries.len()
        invariant
            i <= space.is_entries.len(),
            *space == *old(space),
            forall|j: int| 0 <= j < i ==> #[trigger] in_use(space.is_entries[j]),
        decreases space.is_entries.len() - i,
    {
        let e = space.is_entries[i];
        if ie_bits_type(e.ie_bits) == MACH_PORT_TYPE_NONE {
            proof { lemma_first_free_unique(space.is_entries@, i as int); }
            space.is_entries.set(i, ipc_entry { ie_request: 0, ..e });
            return (KERN_SUCCESS, e.ie_name, i);
        }
        i = i + 1;
    }
    proof { lemma_no_free(space.is_entries@); }
    (KERN_NO_SPACE, 0, 0)
}

/// `ipc_entry_alloc`: allocate an entry of the space, taking the head of
/// the free list or else making a new entry named `fresh`; returns the
/// entry's name and position.
pub fn ipc_entry_alloc(space: &mut ipc_space, fresh: mach_port_name_t) -> (r: (kern_return_t, mach_port_name_t, usize))
    requires
        free_ok(old(space).is_entries@),
        first_free(old(space).is_entries@) is None ==> name_valid(fresh) && !name_used(old(space).is_entries@, fresh),
        old(space).is_entries.len() < usize::MAX,
    ensures
        final(space).is_active == old(space).is_active,
        final(space).is_id == old(space).is_id,
        !old(space).is_active ==> r.0 == KERN_INVALID_TASK && *final(space) == *old(space),
        old(space).is_active ==> {
            let (ents, i) = alloc_spec(old(space).is_entries@, fresh);
            &&& r == (KERN_SUCCESS, ents[i].ie_name, i as usize)
            &&& final(space).is_entries@ == ents
        },
{
    if !space.is_active {
        return (KERN_INVALID_TASK, 0, 0);
    }
    let (kr, name, i) = ipc_entry_get(space);
    if kr == KERN_SUCCESS {
        return (kr, name, i);
    }
    let n = space.is_entries.len();
    space.is_entries.push(ipc_entry { ie_name: fresh, ie_bits: 0, ie_object: 0, ie_request: 0 });
    (KERN_SUCCESS, fresh, n)
}

/// `ipc_entry_alloc_name`: make sure the space has an entry named `name`,
/// returning its position (the entry may already hold a right).
pub fn ipc_entry_alloc_name(space: &mut ipc_space, name: mach_port_name_t) -> (r: (kern_return_t, usize))
    requires
        name_valid(name),
        keys_unique(old(space).is_entries@),
        free_ok(old(space).is_entries@),
        old(space).is_entries.len() < usize::MAX,
    ensures
        final(space).is_active == old(space).is_active,
        final(space).is_id == old(space).is_id,
        !old(space).is_active ==> r.0 == KERN_INVALID_TASK && *final(space) == *old(space),
        old(space).is_active ==> {
            let (ents, i) = alloc_name_spec(old(space).is_entries@, name);
            &&& r == (KERN_SUCCESS, i as usize)
            &&& final(space).is_entries@ == ents
        },
{
    if !space.is_active {
        return (KERN_INVALID_TASK, 0);
    }
    let mut i: usize = 0;
    while i < space.is_entries.len()
        invariant
            i <= space.is_entries.len(),
            *space == *old(space),
            space.is_active,
            keys_unique(space.is_entries@),
            forall|j: int| 0 <= j < i ==> #[trigger] space.is_entries[j].ie_name != name,
        decreases space.is_entries.len() - i,
    {
        let e = space.is_entries[i];
        if e.ie_name == name {
            proof {
                let ents = space.is_entries@;
                assert(name_used(ents, name));
                let k = choose|k: int| 0 <= k < ents.len() && ents[k].ie_name == name;
                if k != i as int {
                    if k < i as int {
                        assert(ents[k].ie_name != ents[i as int].ie_name);
                    } else {
                        assert(ents[i as int].ie_name != ents[k].ie_name);
                    }
                }
                assert(key_lookup(ents, name) == Some(i as int));
            }
            if ie_bits_type(e.ie_bits) != MACH_PORT_TYPE_NONE {
                return (KERN_SUCCESS, i);
            }
            space.is_entries.set(i, ipc_entry { ie_bits: 0, ie_request: 0, ..e });
            return (KERN_SUCCESS, i);
        }
        i = i + 1;
    }
    let n = space.is_entries.len();
    space.is_entries.push(ipc_entry { ie_name: name, ie_bits: 0, ie_object: 0, ie_request: 0 });
    (KERN_SUCCESS, n)
}

/// `ipc_entry_dealloc`: put an entry holding no object back on the free
/// list.
pub fn ipc_entry_dealloc(space: &mut ipc_space, idx: usize)
    requires
        idx < old(space).is_entries.len(),
        old(space).is_entries[idx as int].ie_object == 0,
    ensures
        final(space).is_active == old(space).is_active,
        final(space).is_id == old(space).is_id,
        final(space).is_entries@ == old(space).is_entries@.update(idx as int, freed(old(space).is_entries[idx as int])),
{
    let e = space.is_entries[idx];
    space.is_entries.set(idx, ipc_entry { ie_name: e.ie_name, ie_bits: 0, ie_object: 0, ie_request: 0 });
}

} // verus!
