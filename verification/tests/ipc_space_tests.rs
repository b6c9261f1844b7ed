use gnumach::ipc_right::{ipc_entry, ipc_mqueue, ipc_port, IpcAction};
use gnumach::ipc_space::{ipc_space_create, ipc_space_create_special, ipc_space_destroy};
use gnumach::mach_types::{
    KERN_SUCCESS, MACH_PORT_TYPE_DEAD_NAME, MACH_PORT_TYPE_PORT_SET, MACH_PORT_TYPE_RECEIVE, MACH_PORT_TYPE_SEND,
    MACH_PORT_TYPE_SEND_ONCE,
};

fn port(receiver_name: u32, receiver: u32) -> ipc_port {
    ipc_port {
        ip_active: true,
        ip_references: 2,
        ip_srights: 1,
        ip_sorights: 1,
        ip_mscount: 1,
        ip_receiver_name: receiver_name,
        ip_receiver: receiver,
        ip_destination: 0,
        ip_nsrequest: 0,
        ip_pdrequest: 0,
        ip_protected_payload: false,
        ip_payload: 0,
        ip_timestamp: 0,
        ip_dnrequests: Vec::new(),
        ip_kotype: 0,
        ip_pset: 0,
        ip_msgcount: 0,
        ip_qlimit: 5,
        ip_seqno: 0,
        ip_blocked: Vec::new(),
        ip_messages: ipc_mqueue { imq_messages: Vec::new(), imq_threads: Vec::new() },
    }
}

#[test]
fn space_create_is_active_and_empty() {
    let (kr, space) = ipc_space_create(7);
    assert_eq!(kr, KERN_SUCCESS);
    assert!(space.is_active);
    assert_eq!(space.is_id, 7);
    assert!(space.is_entries.is_empty());
    let (kr, special) = ipc_space_create_special(8);
    assert_eq!(kr, KERN_SUCCESS);
    assert!(!special.is_active);
}

#[test]
fn space_destroy_cleans_each_right_in_order() {
    let (_, mut space) = ipc_space_create(4);
    space.is_entries = vec![
        ipc_entry { ie_name: 0x10, ie_bits: MACH_PORT_TYPE_RECEIVE, ie_object: 1, ie_request: 0 },
        ipc_entry { ie_name: 0x11, ie_bits: 0, ie_object: 0, ie_request: 0 },
        ipc_entry { ie_name: 0x20, ie_bits: MACH_PORT_TYPE_SEND | 1, ie_object: 2, ie_request: 0 },
        ipc_entry { ie_name: 0x30, ie_bits: MACH_PORT_TYPE_PORT_SET, ie_object: 1, ie_request: 0 },
        ipc_entry { ie_name: 0x40, ie_bits: MACH_PORT_TYPE_SEND_ONCE | 1, ie_object: 3, ie_request: 0 },
        ipc_entry { ie_name: 0x50, ie_bits: MACH_PORT_TYPE_DEAD_NAME | 1, ie_object: 0, ie_request: 0 },
    ];
    let mut ports = vec![port(0, 0), port(0x10, 4), port(0x77, 9), port(0x78, 9)];
    let mut acts = Vec::new();
    ipc_space_destroy(&mut space, &mut ports, &mut acts);
    assert!(!space.is_active);
    assert!(space.is_entries.is_empty());
    assert_eq!(
        acts,
        vec![
            IpcAction::DestroyPort { port: 1 },
            IpcAction::DestroyPortSet { pset: 1 },
            IpcAction::NotifySendOnce { port: 3 },
        ]
    );
    // The send right to port 2 went, with its reference.
    assert_eq!(ports[2].ip_srights, 0);
    assert_eq!(ports[2].ip_references, 1);
}

#[test]
fn space_destroy_of_dead_space_does_nothing() {
    let (_, mut space) = ipc_space_create_special(8);
    space.is_entries =
        vec![ipc_entry { ie_name: 0x20, ie_bits: MACH_PORT_TYPE_SEND | 1, ie_object: 1, ie_request: 0 }];
    let mut ports = vec![port(0, 0), port(0x77, 9)];
    let mut acts = Vec::new();
    ipc_space_destroy(&mut space, &mut ports, &mut acts);
    assert_eq!(space.is_entries.len(), 1);
    assert!(acts.is_empty());
    assert_eq!(ports[1].ip_srights, 1);
}
