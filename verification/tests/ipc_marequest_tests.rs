use gnumach::ipc_marequest::{
    ipc_marequest, ipc_marequest_cancel, ipc_marequest_create, ipc_marequest_destroy, ipc_marequest_info,
    ipc_marequest_init, ipc_marequest_rename, IPC_MAREQUEST_SIZE,
};
use gnumach::ipc_right::{ipc_entry, ipc_mqueue, ipc_port, ipc_space, IpcAction};
use gnumach::mach_types::{
    IE_BITS_MAREQUEST, MACH_MSG_SUCCESS, MACH_PORT_TYPE_RECEIVE, MACH_PORT_TYPE_SEND, MACH_SEND_INVALID_NOTIFY,
    MACH_SEND_NOTIFY_IN_PROGRESS,
};

fn port(receiver_name: u32, receiver: u32) -> ipc_port {
    ipc_port {
        ip_active: true,
        ip_references: 1,
        ip_srights: 1,
        ip_sorights: 0,
        ip_mscount: 1,
        ip_receiver_name: receiver_name,
        ip_receiver: receiver,
        ip_destination: 0,
        ip_nsrequest: 0,
        ip_pdrequest: 0,
        ip_protected_payload: false,
        ip_payload: 0,
        ip_timestamp: 0,
        ip_dnrequests: Vec::new(),
        ip_kotype: 0,
        ip_pset: 0,
        ip_msgcount: 0,
        ip_qlimit: 5,
        ip_seqno: 0,
        ip_blocked: Vec::new(),
        ip_messages: ipc_mqueue { imq_messages: Vec::new(), imq_threads: Vec::new() },
    }
}

/// Space 0x40: 0x10 names the receive right of port 1 (the notify port),
/// 0x23 a send right to port 2, whose receiver is elsewhere; port 3 has
/// no name in the space.
fn setup() -> (ipc_space, Vec<ipc_port>) {
    let space = ipc_space {
        is_active: true,
        is_id: 0x40,
        is_entries: vec![
            ipc_entry { ie_name: 0x10, ie_bits: MACH_PORT_TYPE_RECEIVE, ie_object: 1, ie_request: 0 },
            ipc_entry { ie_name: 0x23, ie_bits: MACH_PORT_TYPE_SEND | 1, ie_object: 2, ie_request: 0 },
        ],
    };
    let ports = vec![port(0, 0), port(0x10, 0x40), port(0x77, 9), port(0x55, 9)];
    (space, ports)
}

#[test]
fn marequest_init_has_sixteen_empty_buckets() {
    let t = ipc_marequest_init();
    assert_eq!(t.imart_mask, IPC_MAREQUEST_SIZE - 1);
    assert_eq!(t.imart_buckets.len(), 16);
    assert!(t.imart_buckets.iter().all(|b| b.is_empty()));
    assert!(t.imart_requests.is_empty());
}

#[test]
fn marequest_create_on_entry_links_and_marks() {
    let mut t = ipc_marequest_init();
    let (mut space, mut ports) = setup();
    let (mr, id) = ipc_marequest_create(&mut t, &mut space, &mut ports, 2, 0x10);
    assert_eq!(mr, MACH_MSG_SUCCESS);
    assert_eq!(id, 0);
    // ((0x40 >> 4) + 0x23) & 15 == 7
    assert_eq!(t.imart_buckets[7], vec![0]);
    assert_eq!(t.imart_requests[0], ipc_marequest { imar_space: 0x40, imar_name: 0x23, imar_soright: 1 });
    assert_eq!(space.is_entries[1].ie_bits, MACH_PORT_TYPE_SEND | 1 | IE_BITS_MAREQUEST);
    assert_eq!(ports[1].ip_sorights, 1);
    assert_eq!(ports[1].ip_references, 2);

    let (mr, _) = ipc_marequest_create(&mut t, &mut space, &mut ports, 2, 0x10);
    assert_eq!(mr, MACH_SEND_NOTIFY_IN_PROGRESS);
    assert_eq!(t.imart_requests.len(), 1);
}

#[test]
fn marequest_create_without_entry_is_unlinked() {
    let mut t = ipc_marequest_init();
    let (mut space, mut ports) = setup();
    let (mr, id) = ipc_marequest_create(&mut t, &mut space, &mut ports, 3, 0x10);
    assert_eq!(mr, MACH_MSG_SUCCESS);
    assert_eq!(t.imart_requests[id as usize], ipc_marequest { imar_space: 0x40, imar_name: 0, imar_soright: 1 });
    assert!(t.imart_buckets.iter().all(|b| b.is_empty()));
}

#[test]
fn marequest_create_bad_notify_or_dead_space() {
    let mut t = ipc_marequest_init();
    let (mut space, mut ports) = setup();
    let (mr, _) = ipc_marequest_create(&mut t, &mut space, &mut ports, 2, 0x23);
    assert_eq!(mr, MACH_SEND_INVALID_NOTIFY);
    assert_eq!(space.is_entries[1].ie_bits, MACH_PORT_TYPE_SEND | 1);
    space.is_active = false;
    let (mr, _) = ipc_marequest_create(&mut t, &mut space, &mut ports, 2, 0x10);
    assert_eq!(mr, MACH_SEND_INVALID_NOTIFY);
    assert!(t.imart_requests.is_empty());
}

#[test]
fn marequest_cancel_unlinks_and_clears_name() {
    let mut t = ipc_marequest_init();
    let (mut space, mut ports) = setup();
    let (_, id) = ipc_marequest_create(&mut t, &mut space, &mut ports, 2, 0x10);
    ipc_marequest_cancel(&mut t, &space, 0x23);
    assert!(t.imart_buckets[7].is_empty());
    assert_eq!(t.imart_requests[id as usize].imar_name, 0);
    assert_eq!(t.imart_requests[id as usize].imar_soright, 1);
}

#[test]
fn marequest_rename_moves_bucket() {
    let mut t = ipc_marequest_init();
    let (mut space, mut ports) = setup();
    let (_, id) = ipc_marequest_create(&mut t, &mut space, &mut ports, 2, 0x10);
    ipc_marequest_rename(&mut t, &space, 0x23, 0x29);
    assert!(t.imart_buckets[7].is_empty());
    // ((0x40 >> 4) + 0x29) & 15 == 13
    assert_eq!(t.imart_buckets[13], vec![id]);
    assert_eq!(t.imart_requests[id as usize].imar_name, 0x29);
}

#[test]
fn marequest_destroy_unmarks_and_notifies() {
    let mut t = ipc_marequest_init();
    let (mut space, mut ports) = setup();
    let before = space.is_entries.clone();
    let (_, id) = ipc_marequest_create(&mut t, &mut space, &mut ports, 2, 0x10);
    let mut acts = Vec::new();
    ipc_marequest_destroy(&mut t, &mut space, &mut acts, id);
    assert_eq!(space.is_entries, before);
    assert!(t.imart_buckets.iter().all(|b| b.is_empty()));
    assert_eq!(acts, vec![IpcAction::NotifyMsgAccepted { notify: 1, name: 0x23 }]);
    assert_eq!(t.imart_requests[id as usize], ipc_marequest { imar_space: 0, imar_name: 0, imar_soright: 0 });
}

#[test]
fn marequest_destroy_unlinked_or_dead_space_names_nothing() {
    let mut t = ipc_marequest_init();
    let (mut space, mut ports) = setup();
    let (_, a) = ipc_marequest_create(&mut t, &mut space, &mut ports, 3, 0x10);
    let (_, b) = ipc_marequest_create(&mut t, &mut space, &mut ports, 2, 0x10);
    let mut acts = Vec::new();
    ipc_marequest_destroy(&mut t, &mut space, &mut acts, a);
    space.is_active = false;
    ipc_marequest_destroy(&mut t, &mut space, &mut acts, b);
    assert_eq!(
        acts,
        vec![IpcAction::NotifyMsgAccepted { notify: 1, name: 0 }, IpcAction::NotifyMsgAccepted { notify: 1, name: 0 }]
    );
    assert!(t.imart_buckets[7].is_empty());
}

#[test]
fn marequest_info_counts_buckets() {
    let mut t = ipc_marequest_init();
    let (mut space, mut ports) = setup();
    ipc_marequest_create(&mut t, &mut space, &mut ports, 2, 0x10);
    let (size, max, info) = ipc_marequest_info(&t, 100);
    assert_eq!(size, 16);
    assert_eq!(max, u32::MAX);
    assert_eq!(info.len(), 16);
    assert_eq!(info[7].hib_count, 1);
    assert_eq!(info.iter().map(|h| h.hib_count).sum::<u32>(), 1);
    let (_, _, info) = ipc_marequest_info(&t, 3);
    assert_eq!(info.len(), 3);
}
