use gnumach::ipc_port::{ipc_port_dngrow, ipc_port_dnrequest};
use gnumach::ipc_right::{ipc_mqueue, 
    ie_bits_urefs, ipc_entry, ipc_port, ipc_right_dnrequest, ipc_space, DnRequest, IpcAction,
};
use gnumach::ipc_table::ipc_table_init;
use gnumach::mach_types::{
    KERN_INVALID_ARGUMENT, KERN_INVALID_NAME, KERN_INVALID_RIGHT, KERN_NO_SPACE,
    KERN_RESOURCE_SHORTAGE, KERN_SUCCESS, MACH_PORT_TYPE_DEAD_NAME, MACH_PORT_TYPE_PORT_SET,
    MACH_PORT_TYPE_SEND,
};

fn port(active: bool, references: u32, srights: u32) -> ipc_port {
    ipc_port {
        ip_active: active,
        ip_references: references,
        ip_srights: srights,
        ip_sorights: 0,
        ip_mscount: 0,
        ip_receiver_name: 0,
        ip_receiver: 0,
        ip_destination: 0,
        ip_nsrequest: 0,
        ip_pdrequest: 0,
        ip_protected_payload: false,
        ip_payload: 0,
        ip_timestamp: 0,
        ip_dnrequests: Vec::new(),
        ip_kotype: 0,
        ip_pset: 0,
        ip_msgcount: 0,
        ip_qlimit: 5,
        ip_seqno: 0,
        ip_blocked: Vec::new(),
        ip_messages: ipc_mqueue { imq_messages: Vec::new(), imq_threads: Vec::new() },
    }
}

fn one_entry_space(bits: u32, object: u32) -> ipc_space {
    ipc_space {
        is_active: true,
        is_id: 3,
        is_entries: vec![ipc_entry { ie_name: 0x601, ie_bits: bits, ie_object: object, ie_request: 0 }],
    }
}

#[test]
fn test_dngrow_first_table() {
    let sizes = ipc_table_init();
    assert_eq!(sizes[0], 2);
    assert_eq!(sizes[1], 4);
    let mut ports = vec![port(true, 1, 0), port(true, 1, 1)];
    assert_eq!(ipc_port_dngrow(&mut ports, 1, &sizes), KERN_SUCCESS);
    assert_eq!(ports[1].ip_dnrequests, vec![DnRequest { name: 0, notify: 1 }, DnRequest { name: 0, notify: 0 }]);
    // growing again keeps the slots and chains the new ones
    ports[1].ip_dnrequests[1] = DnRequest { name: 0x601, notify: 9 };
    ports[1].ip_dnrequests[0].notify = 0;
    assert_eq!(ipc_port_dngrow(&mut ports, 1, &sizes), KERN_SUCCESS);
    assert_eq!(
        ports[1].ip_dnrequests,
        vec![
            DnRequest { name: 1, notify: 3 },
            DnRequest { name: 0x601, notify: 9 },
            DnRequest { name: 0, notify: 0 },
            DnRequest { name: 0, notify: 2 },
        ]
    );
}

#[test]
fn test_dnrequest_takes_the_free_head() {
    let mut ports = vec![port(true, 1, 0), port(true, 1, 1)];
    assert_eq!(ipc_port_dnrequest(&mut ports, 1, 0x601, 5), (KERN_NO_SPACE, 0));
    ports[1].ip_dnrequests = vec![
        DnRequest { name: 1, notify: 3 },
        DnRequest { name: 0x700, notify: 8 },
        DnRequest { name: 0, notify: 0 },
        DnRequest { name: 0, notify: 2 },
    ];
    assert_eq!(ipc_port_dnrequest(&mut ports, 1, 0x601, 5), (KERN_SUCCESS, 3));
    assert_eq!(ports[1].ip_dnrequests[0], DnRequest { name: 1, notify: 2 });
    assert_eq!(ports[1].ip_dnrequests[3], DnRequest { name: 0x601, notify: 5 });
}

#[test]
fn test_dngrow_out_of_sizes() {
    let sizes = vec![2, 0];
    let mut ports = vec![port(true, 1, 0), port(true, 1, 1)];
    ports[1].ip_dnrequests = vec![DnRequest { name: 0, notify: 0 }, DnRequest { name: 0x700, notify: 8 }];
    assert_eq!(ipc_port_dngrow(&mut ports, 1, &sizes), KERN_RESOURCE_SHORTAGE);
    assert_eq!(ports[1].ip_dnrequests.len(), 2);
}

#[test]
fn test_right_dnrequest_register_swap_cancel() {
    let sizes = ipc_table_init();
    let mut space = one_entry_space(MACH_PORT_TYPE_SEND | 1, 1);
    let mut ports = vec![port(true, 1, 0), port(true, 1, 1)];
    let mut acts: Vec<IpcAction> = Vec::new();
    // no table yet: it is grown, then the request takes slot 1
    assert_eq!(ipc_right_dnrequest(&mut space, &mut ports, &mut acts, &sizes, 0x601, 0, 5), (KERN_SUCCESS, 0));
    assert_eq!(space.is_entries[0].ie_request, 1);
    assert_eq!(ports[1].ip_dnrequests[1], DnRequest { name: 0x601, notify: 5 });
    assert_eq!(ports[1].ip_dnrequests[0].notify, 0);
    // a second request replaces the first and hands it back
    assert_eq!(ipc_right_dnrequest(&mut space, &mut ports, &mut acts, &sizes, 0x601, 0, 6), (KERN_SUCCESS, 5));
    assert_eq!(space.is_entries[0].ie_request, 1);
    assert_eq!(ports[1].ip_dnrequests[1], DnRequest { name: 0x601, notify: 6 });
    // no port to notify: the request is only cancelled
    assert_eq!(ipc_right_dnrequest(&mut space, &mut ports, &mut acts, &sizes, 0x601, 0, 0), (KERN_SUCCESS, 6));
    assert_eq!(space.is_entries[0].ie_request, 0);
    assert_eq!(ports[1].ip_dnrequests[0].notify, 1);
    assert!(acts.is_empty());
}

#[test]
fn test_right_dnrequest_full_and_no_bigger_size() {
    let sizes = vec![2, 0];
    let mut space = one_entry_space(MACH_PORT_TYPE_SEND | 1, 1);
    let mut ports = vec![port(true, 1, 0), port(true, 1, 1)];
    ports[1].ip_dnrequests = vec![DnRequest { name: 0, notify: 0 }, DnRequest { name: 0x700, notify: 8 }];
    let mut acts: Vec<IpcAction> = Vec::new();
    assert_eq!(
        ipc_right_dnrequest(&mut space, &mut ports, &mut acts, &sizes, 0x601, 0, 5),
        (KERN_RESOURCE_SHORTAGE, 0)
    );
    assert_eq!(space.is_entries[0].ie_request, 0);
}

#[test]
fn test_right_dnrequest_dead_name() {
    let sizes = ipc_table_init();
    let mut ports = vec![port(true, 1, 0)];
    let mut acts: Vec<IpcAction> = Vec::new();
    let mut space = one_entry_space(MACH_PORT_TYPE_DEAD_NAME | 2, 0);
    // not immediate: refused
    assert_eq!(
        ipc_right_dnrequest(&mut space, &mut ports, &mut acts, &sizes, 0x601, 0, 5),
        (KERN_INVALID_ARGUMENT, 0)
    );
    // immediate: notified now, for one more user reference
    assert_eq!(ipc_right_dnrequest(&mut space, &mut ports, &mut acts, &sizes, 0x601, 1, 5), (KERN_SUCCESS, 0));
    assert_eq!(ie_bits_urefs(space.is_entries[0].ie_bits), 3);
    assert_eq!(acts, vec![IpcAction::NotifyDeadName { notify: 5, name: 0x601 }]);
}

#[test]
fn test_right_dnrequest_port_died() {
    let sizes = ipc_table_init();
    let mut space = one_entry_space(MACH_PORT_TYPE_SEND | 1, 1);
    let mut ports = vec![port(true, 1, 0), port(false, 2, 0)];
    let mut acts: Vec<IpcAction> = Vec::new();
    assert_eq!(ipc_right_dnrequest(&mut space, &mut ports, &mut acts, &sizes, 0x601, 1, 5), (KERN_SUCCESS, 0));
    assert_eq!(space.is_entries[0].ie_bits, MACH_PORT_TYPE_DEAD_NAME | 2);
    assert_eq!(ports[1].ip_references, 1);
    assert_eq!(
        acts,
        vec![IpcAction::ReverseRemove { port: 1 }, IpcAction::NotifyDeadName { notify: 5, name: 0x601 }]
    );
}

#[test]
fn test_right_dnrequest_errors() {
    let sizes = ipc_table_init();
    let mut ports = vec![port(true, 1, 0)];
    let mut acts: Vec<IpcAction> = Vec::new();
    let mut space = one_entry_space(MACH_PORT_TYPE_PORT_SET, 0);
    assert_eq!(
        ipc_right_dnrequest(&mut space, &mut ports, &mut acts, &sizes, 0x601, 1, 5),
        (KERN_INVALID_RIGHT, 0)
    );
    assert_eq!(
        ipc_right_dnrequest(&mut space, &mut ports, &mut acts, &sizes, 0x999, 1, 5),
        (KERN_INVALID_NAME, 0)
    );
}
