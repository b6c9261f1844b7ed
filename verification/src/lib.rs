//! Verified core of the GNU Mach microkernel's IPC rights and i386
//! physical-map management.
#![allow(non_camel_case_types)]
use vstd::prelude::*;

pub mod ipc_entry;
pub mod ipc_kmsg;
pub mod ipc_kmsg_body;
pub mod ipc_kmsg_copyout;
pub mod ipc_marequest;
pub mod ipc_mqueue;
pub mod ipc_notify;
pub mod ipc_object;
pub mod ipc_port;
pub mod ipc_pset;
pub mod ipc_right;
pub mod ipc_space;
pub mod ipc_table;
pub mod mach_msg;
pub mod mach_port;
pub mod mach_types;
pub mod pmap;
pub mod pmap_types;

verus! {

} // verus!
