//! Capability spaces: creating one and tearing one down.
//!
//! Tearing a space down cleans up the right of each entry in use, in the
//! order of the space's vector of entries, and then drops every entry.

use vstd::prelude::*;
use crate::ipc_kmsg::{at, lemma_put, put, sst, SState};
use crate::ipc_right::{
    entry_ok, get_entry, ie_bits_type, ie_type, in_use, ipc_right_clean, ipc_space, st_clean, valid_type, IpcAction,
    ipc_port,
};
use crate::mach_types::{kern_return_t, KERN_SUCCESS, MACH_PORT_NAME_NULL, MACH_PORT_TYPE_NONE};

verus! {

/// `ipc_space_create`: a new, active space with no entries.
pub fn ipc_space_create(id: u32) -> (r: (kern_return_t, ipc_space))
    ensures
        r.0 == KERN_SUCCESS,
        r.1.is_active,
        r.1.is_id == id,
        r.1.is_entries@.len() == 0,
{
    (KERN_SUCCESS, ipc_space { is_active: true, is_id: id, is_entries: Vec::new() })
}

/// `ipc_space_create_special`: a space for the kernel's own ports, which
/// is never active and holds no entries.
pub fn ipc_space_create_special(id: u32) -> (r: (kern_return_t, ipc_space))
    ensures
        r.0 == KERN_SUCCESS,
        !r.1.is_active,
        r.1.is_id == id,
        r.1.is_entries@.len() == 0,
{
    (KERN_SUCCESS, ipc_space { is_active: false, is_id: id, is_entries: Vec::new() })
}

/// Entry `i` names a right to clean up.
pub open spec fn to_clean(e: crate::ipc_right::ipc_entry) -> bool {
    e.ie_name != MACH_PORT_NAME_NULL && in_use(e)
}

/// The state once entry `i` is cleaned up, if it names a right.
pub open spec fn clean_step(s: SState, i: int) -> SState {
    if to_clean(s.entries[i]) { put(s, i, st_clean(at(s, i))) } else { s }
}

/// The state once the first `n` entries are cleaned up, in order.
pub open spec fn cleaned(s: SState, n: nat) -> SState
    decreases n,
{
    if n == 0 { s } else { clean_step(cleaned(s, (n - 1) as nat), n - 1) }
}

/// Each entry to clean up is, when its turn comes, a right consistent
/// with its port.
pub open spec fn destroy_ok(s: SState) -> bool {
    forall|i: nat| i < s.entries.len() ==> {
        let e = #[trigger] cleaned(s, i).entries[i as int];
        to_clean(e) ==> valid_type(ie_type(e.ie_bits)) && entry_ok(e, cleaned(s, i).ports)
    }
}

proof fn lemma_cleaned_len(s: SState, n: nat)
    requires
        n <= s.entries.len(),
    ensures
        cleaned(s, n).entries.len() == s.entries.len(),
    decreases n,
{
    if n > 0 {
        lemma_cleaned_len(s, (n - 1) as nat);
    }
}

/// `ipc_space_destroy`: the space dies; if it was active, each right it
/// holds is cleaned up and all its entries go.
pub fn ipc_space_destroy(space: &mut ipc_space, ports: &mut Vec<ipc_port>, acts: &mut Vec<IpcAction>)
    requires
        old(space).is_active ==> destroy_ok(sst(*old(space), *old(ports), *old(acts))),
    ensures
        !final(space).is_active,
        final(space).is_id == old(space).is_id,
        final(ports).len() == old(ports).len(),
        !old(space).is_active ==> final(space).is_entries@ == old(space).is_entries@ && *final(ports) == *old(ports)
            && final(acts)@ == old(acts)@,
        old(space).is_active ==> {
            let c = cleaned(sst(*old(space), *old(ports), *old(acts)), old(space).is_entries@.len());
            &&& final(space).is_entries@.len() == 0
            &&& crate::ipc_right::pv(*final(ports)) == c.ports
            &&& final(acts)@ == c.acts
        },
{
    let active = space.is_active;
    space.is_active = false;
    if !active {
        return;
    }
    let ghost s0 = sst(*old(space), *old(ports), *old(acts));
    let n = space.is_entries.len();
    let mut i: usize = 0;
    while i < n
        invariant
            n == space.is_entries.len(),
            n == s0.entries.len(),
            i <= n,
            !space.is_active,
            space.is_id == old(space).is_id,
            ports.len() == old(ports).len(),
            destroy_ok(s0),
            sst(*space, *ports, *acts) == cleaned(s0, i as nat),
        decreases n - i,
    {
        let e = get_entry(space, i);
        proof {
            lemma_cleaned_len(s0, i as nat);
            assert(cleaned(s0, i as nat).entries[i as int] == e);
        }
        let ghost sb = *space;
        let ghost pb = *ports;
        let ghost ab = *acts;
        if e.ie_name != MACH_PORT_NAME_NULL && ie_bits_type(e.ie_bits) != MACH_PORT_TYPE_NONE {
            ipc_right_clean(space, i, ports, acts);
            proof {
                lemma_put(sb, *space, i, pb, *ports, ab, *acts, st_clean(at(sst(sb, pb, ab), i as int)));
            }
        }
        proof {
            assert(cleaned(s0, (i + 1) as nat) == clean_step(cleaned(s0, i as nat), i as int));
        }
        i = i + 1;
    }
    space.is_entries = Vec::new();
}

} // verus!
