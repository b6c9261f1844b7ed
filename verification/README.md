# gnumach

A verified core of two GNU Mach kernel subsystems, written in Verus:

* `src/pmap_types.rs`, `src/pmap.rs` — the i386 physical map (two-level
  paging): page-table walks, entering, removing and protecting mappings,
  the physical-to-virtual lists of managed pages with their
  modified/referenced attributes, pmap creation and destruction, page-table
  reclamation, boot-time directory fix-ups and map windows.  Page tables
  live in a word-addressed physical memory; directories belong to their
  pmaps.
* `src/mach_types.rs` — Mach IPC types and the bit packing of message
  headers, type descriptors and port types.
* `src/ipc_entry.rs`, `src/ipc_table.rs` — a space's entries and the sizes
  of the growable dead-name request tables.
* `src/ipc_right.rs`, `src/ipc_object.rs` — the rights state machine of an
  IPC space: copy-in and copy-out of rights, user-reference changes,
  deallocation, destruction, dead-port detection, allocation and
  translation of objects.  Work that leaves the space (notifications, port
  destruction) is returned as a list of actions.
* `src/ipc_port.rs`, `src/ipc_pset.rs`, `src/ipc_space.rs` — ports (their
  dead-name requests, the loop check for receive rights in transit,
  destruction, queue limits), port sets and spaces.
* `src/ipc_kmsg.rs`, `src/ipc_kmsg_copyout.rs`, `src/ipc_kmsg_body.rs` —
  copying a message's header and body in and out, and cleaning a message.
* `src/ipc_mqueue.rs` — message queues: sending, receiving, blocking and
  resuming.
* `src/ipc_marequest.rs`, `src/ipc_notify.rs` — msg-accepted requests and
  notification messages.
* `src/mach_msg.rs` — the decisions of the message traps as step
  functions: the caller does the work each step asks for.
* `src/mach_port.rs` — the `mach_port_*` calls.

Each operation's contract states its result as a function of the state it
starts from; the laws relating operations (a page-aligned address entered
is what `pmap_extract` reads back, a removed range reads as unmapped,
moving a send right out and back restores the entry, a send then a receive
delivers the message, the combined trap is a send then a receive, ...) are
proof functions next to the operations.

`app/` holds the kernel-side glue the library leaves out: console output,
loading `%cr3`, waiting for memory, allocating the buffers of
`mach_port_names`, and running the message trap's steps.
