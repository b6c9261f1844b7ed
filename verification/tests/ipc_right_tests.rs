use gnumach::ipc_right::{ipc_mqueue, 
    ie_bits_type, ie_bits_urefs, ipc_entry, ipc_entry_lookup, ipc_port, ipc_port_release, ipc_right_check,
    ipc_right_copyin, ipc_right_copyin_check, ipc_right_copyin_two, ipc_right_copyout, ipc_right_dealloc,
    ipc_right_delta, ipc_right_info, ipc_right_inuse, ipc_right_lookup_write, ipc_space,
    mach_port_deallocate, mach_port_destroy, mach_port_get_refs, mach_port_mod_refs, mach_port_type,
    mach_port_urefs_overflow, mach_port_urefs_underflow, IpcAction, IO_DEAD,
};
use gnumach::mach_types::{
    KERN_INVALID_NAME, KERN_INVALID_RIGHT, KERN_INVALID_TASK, KERN_INVALID_VALUE, KERN_SUCCESS,
    KERN_UREFS_OVERFLOW, MACH_MSG_TYPE_COPY_SEND, MACH_MSG_TYPE_MAKE_SEND, MACH_MSG_TYPE_MAKE_SEND_ONCE,
    MACH_MSG_TYPE_MOVE_RECEIVE, MACH_MSG_TYPE_MOVE_SEND, MACH_MSG_TYPE_MOVE_SEND_ONCE,
    MACH_PORT_RIGHT_DEAD_NAME, MACH_PORT_RIGHT_RECEIVE, MACH_PORT_RIGHT_SEND, MACH_PORT_TYPE_DEAD_NAME,
    MACH_PORT_TYPE_RECEIVE, MACH_PORT_TYPE_SEND, MACH_PORT_TYPE_SEND_ONCE,
};

fn port(active: bool, references: u32, srights: u32) -> ipc_port {
    ipc_port {
        ip_active: active,
        ip_references: references,
        ip_srights: srights,
        ip_sorights: 0,
        ip_mscount: 0,
        ip_receiver_name: 0,
        ip_receiver: 0,
        ip_destination: 0,
        ip_nsrequest: 0,
        ip_pdrequest: 0,
        ip_protected_payload: false,
        ip_payload: 0,
        ip_timestamp: 0,
        ip_dnrequests: Vec::new(),
        ip_kotype: 0,
        ip_pset: 0,
        ip_msgcount: 0,
        ip_qlimit: 5,
        ip_seqno: 0,
        ip_blocked: Vec::new(),
        ip_messages: ipc_mqueue { imq_messages: Vec::new(), imq_threads: Vec::new() },
    }
}

/// A space with one entry, name 0x103, holding `urefs` send rights to port 1.
fn send_space(urefs: u32) -> ipc_space {
    ipc_space {
        is_active: true,
        is_id: 7,
        is_entries: vec![ipc_entry { ie_name: 0x103, ie_bits: MACH_PORT_TYPE_SEND | urefs, ie_object: 1, ie_request: 0 }],
    }
}

fn ports_with(active: bool, references: u32, srights: u32) -> Vec<ipc_port> {
    vec![port(true, 1, 0), port(active, references, srights)]
}

#[test]
fn test_bit_helpers() {
    assert_eq!(ie_bits_type(MACH_PORT_TYPE_SEND | 3), MACH_PORT_TYPE_SEND);
    assert_eq!(ie_bits_urefs(MACH_PORT_TYPE_SEND | 3), 3);
    assert!(mach_port_urefs_overflow(0xFFFE, 2));
    assert!(!mach_port_urefs_overflow(0xFFFE, 1));
    assert!(mach_port_urefs_underflow(2, -3));
    assert!(!mach_port_urefs_underflow(2, -2));
}

#[test]
fn test_mod_refs_then_get_refs() {
    let mut space = send_space(2);
    let mut ports = ports_with(true, 1, 1);
    let mut acts: Vec<IpcAction> = Vec::new();
    assert_eq!(mach_port_mod_refs(&mut space, &mut ports, &mut acts, 0x103, MACH_PORT_RIGHT_SEND, 3), KERN_SUCCESS);
    assert_eq!(mach_port_get_refs(&mut space, &mut ports, &mut acts, 0x103, MACH_PORT_RIGHT_SEND), (KERN_SUCCESS, 5));
    assert_eq!(mach_port_get_refs(&mut space, &mut ports, &mut acts, 0x103, MACH_PORT_RIGHT_RECEIVE), (KERN_SUCCESS, 0));
    assert!(acts.is_empty());
}

#[test]
fn test_mod_refs_errors() {
    let mut space = send_space(2);
    let mut ports = ports_with(true, 1, 1);
    let mut acts: Vec<IpcAction> = Vec::new();
    assert_eq!(mach_port_mod_refs(&mut space, &mut ports, &mut acts, 0x103, 7, 1), KERN_INVALID_VALUE);
    assert_eq!(mach_port_mod_refs(&mut space, &mut ports, &mut acts, 0x999, MACH_PORT_RIGHT_SEND, 1), KERN_INVALID_NAME);
    assert_eq!(mach_port_mod_refs(&mut space, &mut ports, &mut acts, 0x103, MACH_PORT_RIGHT_RECEIVE, -1), KERN_INVALID_RIGHT);
    assert_eq!(mach_port_mod_refs(&mut space, &mut ports, &mut acts, 0x103, MACH_PORT_RIGHT_SEND, -3), KERN_INVALID_VALUE);
    assert_eq!(mach_port_mod_refs(&mut space, &mut ports, &mut acts, 0x103, MACH_PORT_RIGHT_SEND, 0xFFFF), KERN_UREFS_OVERFLOW);
    assert_eq!(space.is_entries[0].ie_bits, MACH_PORT_TYPE_SEND | 2);
    space.is_active = false;
    assert_eq!(mach_port_mod_refs(&mut space, &mut ports, &mut acts, 0x103, MACH_PORT_RIGHT_SEND, 1), KERN_INVALID_TASK);
}

#[test]
fn test_move_send_roundtrip() {
    let mut space = send_space(2);
    let mut ports = ports_with(true, 1, 1);
    let mut acts: Vec<IpcAction> = Vec::new();
    assert_eq!(ipc_right_copyin(&mut space, 0, &mut ports, &mut acts, MACH_MSG_TYPE_MOVE_SEND, false), (KERN_SUCCESS, 1, 0));
    assert_eq!(space.is_entries[0].ie_bits, MACH_PORT_TYPE_SEND | 1);
    assert_eq!(ports[1].ip_srights, 2);
    assert_eq!(ports[1].ip_references, 2);
    assert_eq!(ipc_right_copyout(&mut space, 0, &mut ports, &mut acts, MACH_MSG_TYPE_MOVE_SEND, false, 1), KERN_SUCCESS);
    assert_eq!(space.is_entries[0].ie_bits, MACH_PORT_TYPE_SEND | 2);
    assert_eq!(ports[1].ip_srights, 1);
    assert_eq!(ports[1].ip_references, 1);
    assert!(acts.is_empty());
}

#[test]
fn test_copy_send_and_make_send() {
    let mut space = ipc_space {
        is_active: true,
        is_id: 7,
        is_entries: vec![ipc_entry {
            ie_name: 0x203,
            ie_bits: MACH_PORT_TYPE_SEND | MACH_PORT_TYPE_RECEIVE | 1,
            ie_object: 1,
            ie_request: 0,
        }],
    };
    let mut ports = ports_with(true, 2, 1);
    let mut acts: Vec<IpcAction> = Vec::new();
    assert!(ipc_right_copyin_check(&space, 0, &ports, MACH_MSG_TYPE_MAKE_SEND));
    assert_eq!(ipc_right_copyin(&mut space, 0, &mut ports, &mut acts, MACH_MSG_TYPE_COPY_SEND, false), (KERN_SUCCESS, 1, 0));
    assert_eq!(ports[1].ip_srights, 2);
    assert_eq!(ports[1].ip_references, 3);
    assert_eq!(ipc_right_copyin(&mut space, 0, &mut ports, &mut acts, MACH_MSG_TYPE_MAKE_SEND, false), (KERN_SUCCESS, 1, 0));
    assert_eq!(ports[1].ip_srights, 3);
    assert_eq!(ports[1].ip_mscount, 1);
    assert_eq!(ipc_right_copyin(&mut space, 0, &mut ports, &mut acts, MACH_MSG_TYPE_MAKE_SEND_ONCE, false), (KERN_SUCCESS, 1, 0));
    assert_eq!(ports[1].ip_sorights, 1);
    assert_eq!(space.is_entries[0].ie_bits, MACH_PORT_TYPE_SEND | MACH_PORT_TYPE_RECEIVE | 1);
}

#[test]
fn test_copyin_wrong_right() {
    let mut space = send_space(1);
    let mut ports = ports_with(true, 1, 1);
    let mut acts: Vec<IpcAction> = Vec::new();
    assert!(!ipc_right_copyin_check(&space, 0, &ports, MACH_MSG_TYPE_MOVE_RECEIVE));
    assert_eq!(
        ipc_right_copyin(&mut space, 0, &mut ports, &mut acts, MACH_MSG_TYPE_MOVE_RECEIVE, false).0,
        KERN_INVALID_RIGHT
    );
    assert_eq!(
        ipc_right_copyin(&mut space, 0, &mut ports, &mut acts, MACH_MSG_TYPE_MOVE_SEND_ONCE, false).0,
        KERN_INVALID_RIGHT
    );
    assert_eq!(space.is_entries[0].ie_bits, MACH_PORT_TYPE_SEND | 1);
}

#[test]
fn test_dead_port_becomes_dead_name() {
    let mut space = send_space(2);
    let mut ports = ports_with(false, 1, 0);
    let mut acts: Vec<IpcAction> = Vec::new();
    assert!(ipc_right_check(&mut space, 0, &mut ports, &mut acts));
    assert_eq!(space.is_entries[0].ie_bits, MACH_PORT_TYPE_DEAD_NAME | 2);
    assert_eq!(space.is_entries[0].ie_object, 0);
    assert_eq!(ports[1].ip_references, 0);
    assert_eq!(acts, vec![IpcAction::ReverseRemove { port: 1 }, IpcAction::FreeObject { object: 1 }]);
}

#[test]
fn test_type_of_dead_port_and_dead_name_refs() {
    let mut space = send_space(3);
    let mut ports = ports_with(false, 1, 0);
    let mut acts: Vec<IpcAction> = Vec::new();
    assert_eq!(mach_port_type(&mut space, &mut ports, &mut acts, 0x103), (KERN_SUCCESS, MACH_PORT_TYPE_DEAD_NAME));
    assert_eq!(mach_port_get_refs(&mut space, &mut ports, &mut acts, 0x103, MACH_PORT_RIGHT_DEAD_NAME), (KERN_SUCCESS, 3));
    assert_eq!(mach_port_mod_refs(&mut space, &mut ports, &mut acts, 0x103, MACH_PORT_RIGHT_DEAD_NAME, -3), KERN_SUCCESS);
    assert!(!ipc_right_inuse(&space, 0));
    assert_eq!(mach_port_type(&mut space, &mut ports, &mut acts, 0x103).0, KERN_INVALID_NAME);
}

#[test]
fn test_info_and_lookup() {
    let mut space = send_space(4);
    let mut ports = ports_with(true, 1, 1);
    let mut acts: Vec<IpcAction> = Vec::new();
    assert_eq!(ipc_entry_lookup(&space, 0x103), Some(0));
    assert_eq!(ipc_entry_lookup(&space, 0x104), None);
    assert_eq!(ipc_right_lookup_write(&space, 0x103), Ok(0));
    assert_eq!(ipc_right_lookup_write(&space, 0x104), Err(KERN_INVALID_NAME));
    assert_eq!(ipc_right_info(&mut space, 0, &mut ports, &mut acts), (KERN_SUCCESS, MACH_PORT_TYPE_SEND, 4));
    space.is_active = false;
    assert_eq!(ipc_right_lookup_write(&space, 0x103), Err(KERN_INVALID_TASK));
}

#[test]
fn test_deallocate_last_send_right() {
    let mut space = send_space(1);
    let mut ports = ports_with(true, 2, 1);
    let mut acts: Vec<IpcAction> = Vec::new();
    assert_eq!(mach_port_deallocate(&mut space, &mut ports, &mut acts, 0x103), KERN_SUCCESS);
    assert_eq!(space.is_entries[0].ie_bits, 0);
    assert_eq!(space.is_entries[0].ie_object, 0);
    assert_eq!(ports[1].ip_srights, 0);
    assert_eq!(ports[1].ip_references, 1);
    assert!(acts.contains(&IpcAction::ReverseRemove { port: 1 }));
}

#[test]
fn test_dealloc_and_delta_on_entry() {
    let mut space = send_space(3);
    let mut ports = ports_with(true, 1, 1);
    let mut acts: Vec<IpcAction> = Vec::new();
    assert_eq!(ipc_right_dealloc(&mut space, 0, &mut ports, &mut acts), KERN_SUCCESS);
    assert_eq!(space.is_entries[0].ie_bits, MACH_PORT_TYPE_SEND | 2);
    assert_eq!(ipc_right_delta(&mut space, 0, &mut ports, &mut acts, MACH_PORT_RIGHT_SEND, -1), KERN_SUCCESS);
    assert_eq!(space.is_entries[0].ie_bits, MACH_PORT_TYPE_SEND | 1);
}

#[test]
fn test_destroy_send_right() {
    let mut space = send_space(2);
    let mut ports = ports_with(true, 2, 1);
    let mut acts: Vec<IpcAction> = Vec::new();
    assert_eq!(mach_port_destroy(&mut space, &mut ports, &mut acts, 0x103), KERN_SUCCESS);
    assert_eq!(space.is_entries[0].ie_bits, 0);
    assert_eq!(ports[1].ip_srights, 0);
    assert_eq!(mach_port_destroy(&mut space, &mut ports, &mut acts, 0x103), KERN_INVALID_NAME);
}

#[test]
fn test_move_send_once() {
    let mut space = ipc_space {
        is_active: true,
        is_id: 7,
        is_entries: vec![ipc_entry { ie_name: 0x303, ie_bits: MACH_PORT_TYPE_SEND_ONCE | 1, ie_object: 1, ie_request: 0 }],
    };
    let mut ports = ports_with(true, 1, 0);
    ports[1].ip_sorights = 1;
    let mut acts: Vec<IpcAction> = Vec::new();
    assert_eq!(ipc_right_copyin(&mut space, 0, &mut ports, &mut acts, MACH_MSG_TYPE_MOVE_SEND_ONCE, false), (KERN_SUCCESS, 1, 0));
    assert_eq!(space.is_entries[0].ie_bits, 1);
    assert_eq!(space.is_entries[0].ie_object, 0);
}

#[test]
fn test_copyin_from_dead_name() {
    let mut space = ipc_space {
        is_active: true,
        is_id: 7,
        is_entries: vec![ipc_entry { ie_name: 0x403, ie_bits: MACH_PORT_TYPE_DEAD_NAME | 2, ie_object: 0, ie_request: 0 }],
    };
    let mut ports = ports_with(true, 1, 0);
    let mut acts: Vec<IpcAction> = Vec::new();
    assert_eq!(ipc_right_copyin(&mut space, 0, &mut ports, &mut acts, MACH_MSG_TYPE_MOVE_SEND, false).0, KERN_INVALID_RIGHT);
    assert_eq!(ipc_right_copyin(&mut space, 0, &mut ports, &mut acts, MACH_MSG_TYPE_MOVE_SEND, true), (KERN_SUCCESS, IO_DEAD, 0));
    assert_eq!(space.is_entries[0].ie_bits, MACH_PORT_TYPE_DEAD_NAME | 1);
}

#[test]
fn test_copyin_two_makes_two_send_rights() {
    let mut space = send_space(3);
    let mut ports = ports_with(true, 1, 1);
    let mut acts: Vec<IpcAction> = Vec::new();
    let (kr, obj, _) = ipc_right_copyin_two(&mut space, 0, &mut ports, &mut acts);
    assert_eq!(kr, KERN_SUCCESS);
    assert_eq!(obj, 1);
    assert_eq!(space.is_entries[0].ie_bits, MACH_PORT_TYPE_SEND | 1);
    assert_eq!(ports[1].ip_srights, 3);
}

#[test]
fn test_port_release() {
    let mut ports = ports_with(true, 2, 0);
    let mut acts: Vec<IpcAction> = Vec::new();
    ipc_port_release(&mut ports, 1, &mut acts);
    assert_eq!(ports[1].ip_references, 1);
    assert!(acts.is_empty());
    ipc_port_release(&mut ports, 1, &mut acts);
    assert_eq!(acts, vec![IpcAction::FreeObject { object: 1 }]);
}

#[test]
fn test_move_receive_out() {
    let mut space = ipc_space {
        is_active: true,
        is_id: 7,
        is_entries: vec![ipc_entry { ie_name: 0x503, ie_bits: MACH_PORT_TYPE_RECEIVE, ie_object: 1, ie_request: 0 }],
    };
    let mut ports = ports_with(true, 1, 0);
    ports[1].ip_receiver_name = 0x503;
    ports[1].ip_receiver = 7;
    let mut acts: Vec<IpcAction> = Vec::new();
    assert_eq!(ipc_right_copyin(&mut space, 0, &mut ports, &mut acts, MACH_MSG_TYPE_MOVE_RECEIVE, false), (KERN_SUCCESS, 1, 0));
    assert_eq!(space.is_entries[0].ie_bits, 0);
    assert_eq!(ports[1].ip_receiver_name, 0);
    assert_eq!(ports[1].ip_receiver, 0);
    assert_eq!(acts, vec![IpcAction::ClearReceiver { port: 1 }]);
}
