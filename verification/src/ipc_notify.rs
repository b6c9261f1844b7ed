//! Notification messages: the kernel tells the holder of a send-once right
//! that a name was deleted, a message was accepted, a receive right was
//! destroyed, a port has no more senders, a send-once right went unused, or
//! a name died.  Each kind has a template, filled in at start-up; a
//! notification is its template with the destination and the payload put
//! in, and is sent with `MACH_SEND_ALWAYS`, so it never blocks.
//!
//! Message queues hold headers: the function returns the whole message
//! (header and body) it queued.

use vstd::prelude::*;
use crate::ipc_mqueue::{ipc_mqueue_send, mst, send_ok, send_spec, thread, MState, MACH_SEND_ALWAYS};
use crate::ipc_right::{ipc_port, ipc_pset, IpcAction};
use crate::mach_types::{
    mach_msg_header_t, mach_msg_type_t, mach_port_mscount_t, mach_port_name_t, type_bits, MACH_MSGH_BITS,
    MACH_MSGH_BITS_COMPLEX, MACH_MSG_TYPE_INTEGER_32, MACH_MSG_TYPE_PORT_NAME, MACH_MSG_TYPE_PORT_RECEIVE,
    MACH_MSG_TYPE_PORT_SEND_ONCE, MACH_NOTIFY_DEAD_NAME, MACH_NOTIFY_MSG_ACCEPTED, MACH_NOTIFY_NO_SENDERS,
    MACH_NOTIFY_PORT_DELETED, MACH_NOTIFY_PORT_DESTROYED, MACH_NOTIFY_SEND_ONCE, MACH_PORT_NULL,
};

verus! {

/// `MACH_MSG_TIMEOUT_NONE`.
pub const MACH_MSG_TIMEOUT_NONE: u32 = 0;

/// A port-deleted notification: the name that was deleted.
#[derive(Clone, Copy, Debug, PartialEq, Eq, Structural)]
pub struct mach_port_deleted_notification_t {
    pub not_header: mach_msg_header_t,
    pub not_type: mach_msg_type_t,
    pub not_port: mach_port_name_t,
}

/// A msg-accepted notification: the name the message was sent to.
#[derive(Clone, Copy, Debug, PartialEq, Eq, Structural)]
pub struct mach_msg_accepted_notification_t {
    pub not_header: mach_msg_header_t,
    pub not_type: mach_msg_type_t,
    pub not_port: mach_port_name_t,
}

/// A port-destroyed notification: it carries the receive right of the
/// port.
#[derive(Clone, Copy, Debug, PartialEq, Eq, Structural)]
pub struct mach_port_destroyed_notification_t {
    pub not_header: mach_msg_header_t,
    pub not_type: mach_msg_type_t,
    pub not_port: u32,
}

/// A no-senders notification: the port's make-send count.
#[derive(Clone, Copy, Debug, PartialEq, Eq, Structural)]
pub struct mach_no_senders_notification_t {
    pub not_header: mach_msg_header_t,
    pub not_type: mach_msg_type_t,
    pub not_count: u32,
}

/// A send-once notification: a header alone.
#[derive(Clone, Copy, Debug, PartialEq, Eq, Structural)]
pub struct mach_send_once_notification_t {
    pub not_header: mach_msg_header_t,
}

/// A dead-name notification: the name that died.
#[derive(Clone, Copy, Debug, PartialEq, Eq, Structural)]
pub struct mach_dead_name_notification_t {
    pub not_header: mach_msg_header_t,
    pub not_type: mach_msg_type_t,
    pub not_port: mach_port_name_t,
}

/// The six templates.
#[derive(Clone, Copy, Debug, PartialEq, Eq, Structural)]
pub struct ipc_notify_templates {
    pub port_deleted: mach_port_deleted_notification_t,
    pub msg_accepted: mach_msg_accepted_notification_t,
    pub port_destroyed: mach_port_destroyed_notification_t,
    pub no_senders: mach_no_senders_notification_t,
    pub send_once: mach_send_once_notification_t,
    pub dead_name: mach_dead_name_notification_t,
}

/// The header of a notification template: a send-once right to a
/// destination yet to be filled in.
pub open spec fn template_header(bits: u32, size: u32, id: i32) -> mach_msg_header_t {
    mach_msg_header_t {
        msgh_bits: bits,
        msgh_size: size,
        msgh_remote_port: MACH_PORT_NULL,
        msgh_local_port: MACH_PORT_NULL,
        msgh_seqno: 0,
        msgh_id: id,
    }
}

/// One inline item of `size` bits of type `name`.
pub open spec fn one_item(name: u32, size: u32) -> mach_msg_type_t {
    mach_msg_type_t { bits: type_bits(name, size, 1, 1, 0, 0, 0) }
}

/// The templates as `ipc_notify_init` fills them in.
pub open spec fn templates_spec() -> ipc_notify_templates {
    let so = MACH_MSG_TYPE_PORT_SEND_ONCE | (0u32 << 8u32);
    ipc_notify_templates {
        port_deleted: mach_port_deleted_notification_t {
            not_header: template_header(so, 32, MACH_NOTIFY_PORT_DELETED),
            not_type: one_item(MACH_MSG_TYPE_PORT_NAME, 32),
            not_port: MACH_PORT_NULL,
        },
        msg_accepted: mach_msg_accepted_notification_t {
            not_header: template_header(so, 32, MACH_NOTIFY_MSG_ACCEPTED),
            not_type: one_item(MACH_MSG_TYPE_PORT_NAME, 32),
            not_port: MACH_PORT_NULL,
        },
        port_destroyed: mach_port_destroyed_notification_t {
            not_header: template_header(MACH_MSGH_BITS_COMPLEX | so, 32, MACH_NOTIFY_PORT_DESTROYED),
            not_type: one_item(MACH_MSG_TYPE_PORT_RECEIVE, 32),
            not_port: MACH_PORT_NULL,
        },
        no_senders: mach_no_senders_notification_t {
            not_header: template_header(so, 32, MACH_NOTIFY_NO_SENDERS),
            not_type: one_item(MACH_MSG_TYPE_INTEGER_32, 32),
            not_count: 0,
        },
        send_once: mach_send_once_notification_t { not_header: template_header(so, 24, MACH_NOTIFY_SEND_ONCE) },
        dead_name: mach_dead_name_notification_t {
            not_header: template_header(so, 32, MACH_NOTIFY_DEAD_NAME),
            not_type: one_item(MACH_MSG_TYPE_PORT_NAME, 32),
            not_port: MACH_PORT_NULL,
        },
    }
}

fn header(bits: u32, size: u32, id: i32) -> (h: mach_msg_header_t)
    ensures
        h == template_header(bits, size, id),
{
    mach_msg_header_t {
        msgh_bits: bits,
        msgh_size: size,
        msgh_remote_port: MACH_PORT_NULL,
        msgh_local_port: MACH_PORT_NULL,
        msgh_seqno: 0,
        msgh_id: id,
    }
}

/// `ipc_notify_init`: the notification templates.
pub fn ipc_notify_init() -> (t: ipc_notify_templates)
    ensures
        t == templates_spec(),
{
    let so = MACH_MSGH_BITS(MACH_MSG_TYPE_PORT_SEND_ONCE, 0);
    let name_type = mach_msg_type_t::new(MACH_MSG_TYPE_PORT_NAME, 32, 1, 1, 0, 0, 0);
    ipc_notify_templates {
        port_deleted: mach_port_deleted_notification_t {
            not_header: header(so, 32, MACH_NOTIFY_PORT_DELETED),
            not_type: name_type,
            not_port: MACH_PORT_NULL,
        },
        msg_accepted: mach_msg_accepted_notification_t {
            not_header: header(so, 32, MACH_NOTIFY_MSG_ACCEPTED),
            not_type: name_type,
            not_port: MACH_PORT_NULL,
        },
        port_destroyed: mach_port_destroyed_notification_t {
            not_header: header(MACH_MSGH_BITS_COMPLEX | so, 32, MACH_NOTIFY_PORT_DESTROYED),
            not_type: mach_msg_type_t::new(MACH_MSG_TYPE_PORT_RECEIVE, 32, 1, 1, 0, 0, 0),
            not_port: MACH_PORT_NULL,
        },
        no_senders: mach_no_senders_notification_t {
            not_header: header(so, 32, MACH_NOTIFY_NO_SENDERS),
            not_type: mach_msg_type_t::new(MACH_MSG_TYPE_INTEGER_32, 32, 1, 1, 0, 0, 0),
            not_count: 0,
        },
        send_once: mach_send_once_notification_t { not_header: header(so, 24, MACH_NOTIFY_SEND_ONCE) },
        dead_name: mach_dead_name_notification_t {
            not_header: header(so, 32, MACH_NOTIFY_DEAD_NAME),
            not_type: name_type,
            not_port: MACH_PORT_NULL,
        },
    }
}

/// The header of a notification sent to `port`.
pub open spec fn to_port(h: mach_msg_header_t, port: u32) -> mach_msg_header_t {
    mach_msg_header_t { msgh_remote_port: port, ..h }
}

/// What sending a notification to `port` relies on: sending the header
/// there can proceed, and a port the kernel receives on is alive.
pub open spec fn notify_send_ok(m: MState, h: mach_msg_header_t, port: u32, me: u32, kernel_space: u32) -> bool {
    &&& send_ok(m, to_port(h, port), me)
    &&& m.ports[port as int].receiver == kernel_space ==> m.ports[port as int].active
}

/// `ipc_mqueue_send_always`.
fn send_always(
    ports: &mut Vec<ipc_port>,
    psets: &mut Vec<ipc_pset>,
    threads: &mut Vec<thread>,
    acts: &mut Vec<IpcAction>,
    h: mach_msg_header_t,
    me: u32,
    kernel_space: u32,
)
    requires
        send_ok(mst(*old(ports), *old(psets), *old(threads), *old(acts)), h, me),
        old(ports)[h.msgh_remote_port as int].ip_receiver == kernel_space ==> old(ports)[h.msgh_remote_port as int].ip_active,
    ensures
        mst(*final(ports), *final(psets), *final(threads), *final(acts))
            == send_spec(mst(*old(ports), *old(psets), *old(threads), *old(acts)), h, MACH_SEND_ALWAYS,
                MACH_MSG_TIMEOUT_NONE, me, kernel_space).1,
{
    let _ = ipc_mqueue_send(ports, psets, threads, acts, h, MACH_SEND_ALWAYS, MACH_MSG_TIMEOUT_NONE, me, kernel_space);
}

/// `ipc_notify_port_deleted`: send to `port`, on a send-once right to it, word that
/// `name` was deleted from its space.
/// The notification is its template addressed to `port`.
pub fn ipc_notify_port_deleted(
    tpl: &ipc_notify_templates,
    ports: &mut Vec<ipc_port>,
    psets: &mut Vec<ipc_pset>,
    threads: &mut Vec<thread>,
    acts: &mut Vec<IpcAction>,
    port: u32, name: mach_port_name_t,
    me: u32,
    kernel_space: u32,
) -> (n: mach_port_deleted_notification_t)
    requires
        notify_send_ok(mst(*old(ports), *old(psets), *old(threads), *old(acts)), tpl.port_deleted.not_header, port, me, kernel_space),
    ensures
        n == (mach_port_deleted_notification_t { not_header: to_port(tpl.port_deleted.not_header, port), not_port: name, ..tpl.port_deleted }),
        mst(*final(ports), *final(psets), *final(threads), *final(acts))
            == send_spec(mst(*old(ports), *old(psets), *old(threads), *old(acts)), n.not_header, MACH_SEND_ALWAYS,
                MACH_MSG_TIMEOUT_NONE, me, kernel_space).1,
{
    let n = mach_port_deleted_notification_t { not_header: mach_msg_header_t { msgh_remote_port: port, ..tpl.port_deleted.not_header }, not_port: name, ..tpl.port_deleted };
    send_always(ports, psets, threads, acts, n.not_header, me, kernel_space);
    n
}

/// `ipc_notify_msg_accepted`: send to `port`, on a send-once right to it, word that
/// the message it sent to `name` was accepted.
/// The notification is its template addressed to `port`.
pub fn ipc_notify_msg_accepted(
    tpl: &ipc_notify_templates,
    ports: &mut Vec<ipc_port>,
    psets: &mut Vec<ipc_pset>,
    threads: &mut Vec<thread>,
    acts: &mut Vec<IpcAction>,
    port: u32, name: mach_port_name_t,
    me: u32,
    kernel_space: u32,
) -> (n: mach_msg_accepted_notification_t)
    requires
        notify_send_ok(mst(*old(ports), *old(psets), *old(threads), *old(acts)), tpl.msg_accepted.not_header, port, me, kernel_space),
    ensures
        n == (mach_msg_accepted_notification_t { not_header: to_port(tpl.msg_accepted.not_header, port), not_port: name, ..tpl.msg_accepted }),
        mst(*final(ports), *final(psets), *final(threads), *final(acts))
            == send_spec(mst(*old(ports), *old(psets), *old(threads), *old(acts)), n.not_header, MACH_SEND_ALWAYS,
                MACH_MSG_TIMEOUT_NONE, me, kernel_space).1,
{
    let n = mach_msg_accepted_notification_t { not_header: mach_msg_header_t { msgh_remote_port: port, ..tpl.msg_accepted.not_header }, not_port: name, ..tpl.msg_accepted };
    send_always(ports, psets, threads, acts, n.not_header, me, kernel_space);
    n
}

/// `ipc_notify_port_destroyed`: send to `port`, on a send-once right to it, word that
/// port `right` lost its last receiver; the notification carries its receive right.
/// The notification is its template addressed to `port`.
pub fn ipc_notify_port_destroyed(
    tpl: &ipc_notify_templates,
    ports: &mut Vec<ipc_port>,
    psets: &mut Vec<ipc_pset>,
    threads: &mut Vec<thread>,
    acts: &mut Vec<IpcAction>,
    port: u32, right: u32,
    me: u32,
    kernel_space: u32,
) -> (n: mach_port_destroyed_notification_t)
    requires
        notify_send_ok(mst(*old(ports), *old(psets), *old(threads), *old(acts)), tpl.port_destroyed.not_header, port, me, kernel_space),
    ensures
        n == (mach_port_destroyed_notification_t { not_header: to_port(tpl.port_destroyed.not_header, port), not_port: right, ..tpl.port_destroyed }),
        mst(*final(ports), *final(psets), *final(threads), *final(acts))
            == send_spec(mst(*old(ports), *old(psets), *old(threads), *old(acts)), n.not_header, MACH_SEND_ALWAYS,
                MACH_MSG_TIMEOUT_NONE, me, kernel_space).1,
{
    let n = mach_port_destroyed_notification_t { not_header: mach_msg_header_t { msgh_remote_port: port, ..tpl.port_destroyed.not_header }, not_port: right, ..tpl.port_destroyed };
    send_always(ports, psets, threads, acts, n.not_header, me, kernel_space);
    n
}

/// `ipc_notify_no_senders`: send to `port`, on a send-once right to it, word that
/// the port it watches has no more senders, after `mscount` were made.
/// The notification is its template addressed to `port`.
pub fn ipc_notify_no_senders(
    tpl: &ipc_notify_templates,
    ports: &mut Vec<ipc_port>,
    psets: &mut Vec<ipc_pset>,
    threads: &mut Vec<thread>,
    acts: &mut Vec<IpcAction>,
    port: u32, mscount: mach_port_mscount_t,
    me: u32,
    kernel_space: u32,
) -> (n: mach_no_senders_notification_t)
    requires
        notify_send_ok(mst(*old(ports), *old(psets), *old(threads), *old(acts)), tpl.no_senders.not_header, port, me, kernel_space),
    ensures
        n == (mach_no_senders_notification_t { not_header: to_port(tpl.no_senders.not_header, port), not_count: mscount, ..tpl.no_senders }),
        mst(*final(ports), *final(psets), *final(threads), *final(acts))
            == send_spec(mst(*old(ports), *old(psets), *old(threads), *old(acts)), n.not_header, MACH_SEND_ALWAYS,
                MACH_MSG_TIMEOUT_NONE, me, kernel_space).1,
{
    let n = mach_no_senders_notification_t { not_header: mach_msg_header_t { msgh_remote_port: port, ..tpl.no_senders.not_header }, not_count: mscount, ..tpl.no_senders };
    send_always(ports, psets, threads, acts, n.not_header, me, kernel_space);
    n
}

/// `ipc_notify_send_once`: send to `port`, on a send-once right to it, word that
/// a send-once right to it was destroyed unused.
/// The notification is its template addressed to `port`.
pub fn ipc_notify_send_once(
    tpl: &ipc_notify_templates,
    ports: &mut Vec<ipc_port>,
    psets: &mut Vec<ipc_pset>,
    threads: &mut Vec<thread>,
    acts: &mut Vec<IpcAction>,
    port: u32,
    me: u32,
    kernel_space: u32,
) -> (n: mach_send_once_notification_t)
    requires
        notify_send_ok(mst(*old(ports), *old(psets), *old(threads), *old(acts)), tpl.send_once.not_header, port, me, kernel_space),
    ensures
        n == (mach_send_once_notification_t { not_header: to_port(tpl.send_once.not_header, port) }),
        mst(*final(ports), *final(psets), *final(threads), *final(acts))
            == send_spec(mst(*old(ports), *old(psets), *old(threads), *old(acts)), n.not_header, MACH_SEND_ALWAYS,
                MACH_MSG_TIMEOUT_NONE, me, kernel_space).1,
{
    let n = mach_send_once_notification_t { not_header: mach_msg_header_t { msgh_remote_port: port, ..tpl.send_once.not_header } };
    send_always(ports, psets, threads, acts, n.not_header, me, kernel_space);
    n
}

/// `ipc_notify_dead_name`: send to `port`, on a send-once right to it, word that
/// `name` died.
/// The notification is its template addressed to `port`.
pub fn ipc_notify_dead_name(
    tpl: &ipc_notify_templates,
    ports: &mut Vec<ipc_port>,
    psets: &mut Vec<ipc_pset>,
    threads: &mut Vec<thread>,
    acts: &mut Vec<IpcAction>,
    port: u32, name: mach_port_name_t,
    me: u32,
    kernel_space: u32,
) -> (n: mach_dead_name_notification_t)
    requires
        notify_send_ok(mst(*old(ports), *old(psets), *old(threads), *old(acts)), tpl.dead_name.not_header, port, me, kernel_space),
    ensures
        n == (mach_dead_name_notification_t { not_header: to_port(tpl.dead_name.not_header, port), not_port: name, ..tpl.dead_name }),
        mst(*final(ports), *final(psets), *final(threads), *final(acts))
            == send_spec(mst(*old(ports), *old(psets), *old(threads), *old(acts)), n.not_header, MACH_SEND_ALWAYS,
                MACH_MSG_TIMEOUT_NONE, me, kernel_space).1,
{
    let n = mach_dead_name_notification_t { not_header: mach_msg_header_t { msgh_remote_port: port, ..tpl.dead_name.not_header }, not_port: name, ..tpl.dead_name };
    send_always(ports, psets, threads, acts, n.not_header, me, kernel_space);
    n
}

} // verus!
