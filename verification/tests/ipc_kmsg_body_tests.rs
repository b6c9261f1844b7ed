use gnumach::ipc_kmsg_body::{
    ipc_kmsg, ipc_kmsg_clean, ipc_kmsg_copyin, ipc_kmsg_copyin_body, ipc_kmsg_copyin_body_resume, ipc_kmsg_copyout,
    ipc_kmsg_copyin_from_kernel, ipc_kmsg_copyout_body, ipc_kmsg_copyout_body_resume, ipc_kmsg_copyout_dest,
    ipc_kmsg_copyout_pseudo, ipc_object_copyin_from_kernel, BodyStep, CopyoutStep, OolResult,
};
use gnumach::ipc_right::{ipc_entry, ipc_mqueue, ipc_port, ipc_space, IpcAction};
use gnumach::mach_types::{
    mach_msg_header_t, mach_msg_type_t, KERN_NO_SPACE, MACH_MSGH_BITS, MACH_MSGH_BITS_COMPLEX, MACH_MSG_SUCCESS,
    MACH_MSG_TYPE_COPY_SEND, MACH_MSG_TYPE_INTEGER_32, MACH_MSG_TYPE_MAKE_SEND, MACH_PORT_NAME_DEAD,
    MACH_MSG_TYPE_MAKE_SEND_ONCE, MACH_MSG_TYPE_PORT_SEND_ONCE, MACH_MSGH_BITS_CIRCULAR, MACH_MSG_TYPE_MOVE_SEND, MACH_MSG_TYPE_MOVE_RECEIVE, MACH_MSG_TYPE_PORT_RECEIVE,
    MACH_MSG_TYPE_PORT_SEND, MACH_MSG_VM_SPACE, MACH_PORT_TYPE_RECEIVE, MACH_PORT_TYPE_SEND, MACH_SEND_INVALID_MEMORY,
    MACH_SEND_INVALID_RIGHT, MACH_SEND_INVALID_TYPE, MACH_SEND_MSG_TOO_SMALL,
};

fn port(receiver_name: u32, receiver: u32, srights: u32, references: u32) -> ipc_port {
    ipc_port {
        ip_active: true,
        ip_references: references,
        ip_srights: srights,
        ip_sorights: 0,
        ip_mscount: 0,
        ip_receiver_name: receiver_name,
        ip_receiver: receiver,
        ip_destination: 0,
        ip_nsrequest: 0,
        ip_pdrequest: 0,
        ip_protected_payload: false,
        ip_payload: 0,
        ip_timestamp: 0,
        ip_dnrequests: Vec::new(),
        ip_kotype: 0,
        ip_pset: 0,
        ip_msgcount: 0,
        ip_qlimit: 5,
        ip_seqno: 0,
        ip_blocked: Vec::new(),
        ip_messages: ipc_mqueue { imq_messages: Vec::new(), imq_threads: Vec::new() },
    }
}

/// The sender (space 4): 0x10 the receive right of port 1, the
/// destination; 0x40 two send rights to port 3; 0x50 the receive right of
/// port 2.  Port 3's receive right is in space 7 under 0x99.
fn setup() -> (ipc_space, ipc_space, Vec<ipc_port>, Vec<IpcAction>) {
    let sender = ipc_space {
        is_active: true,
        is_id: 4,
        is_entries: vec![
            ipc_entry { ie_name: 0x10, ie_bits: MACH_PORT_TYPE_RECEIVE, ie_object: 1, ie_request: 0 },
            ipc_entry { ie_name: 0x40, ie_bits: MACH_PORT_TYPE_SEND | 2, ie_object: 3, ie_request: 0 },
            ipc_entry { ie_name: 0x50, ie_bits: MACH_PORT_TYPE_RECEIVE, ie_object: 2, ie_request: 0 },
        ],
    };
    let receiver = ipc_space {
        is_active: true,
        is_id: 7,
        is_entries: vec![ipc_entry { ie_name: 0x99, ie_bits: MACH_PORT_TYPE_RECEIVE, ie_object: 3, ie_request: 0 }],
    };
    let ports = vec![port(0, 0, 0, 1), port(0x10, 4, 1, 2), port(0x50, 4, 0, 1), port(0x99, 7, 1, 2)];
    (sender, receiver, ports, Vec::new())
}

fn desc(name: u32, number: u32, inline: bool) -> u32 {
    mach_msg_type_t::new(name, 32, number, inline as u32, 0, 0, 0).bits
}

fn kmsg(body: Vec<u32>) -> ipc_kmsg {
    ipc_kmsg {
        ikm_header: mach_msg_header_t {
            msgh_bits: MACH_MSGH_BITS(MACH_MSG_TYPE_PORT_SEND, 0) | MACH_MSGH_BITS_COMPLEX,
            msgh_size: 24 + 4 * body.len() as u32,
            msgh_remote_port: 1,
            msgh_local_port: 0,
            msgh_seqno: 0,
            msgh_id: 100,
        },
        ikm_body: body,
        ikm_ool_ports: Vec::new(),
        ikm_marequest: None,
    }
}

#[test]
fn test_copyin_inline_data_and_ports() {
    let (mut space, _rcv, mut ports, mut acts) = setup();
    let mut k = kmsg(vec![
        desc(MACH_MSG_TYPE_INTEGER_32, 2, true),
        0xAAAA,
        0xBBBB,
        desc(MACH_MSG_TYPE_COPY_SEND, 2, true),
        0x40,
        0,
    ]);
    assert_eq!(ipc_kmsg_copyin_body(&mut k, &mut space, &mut ports, &mut acts), BodyStep::Done { mr: MACH_MSG_SUCCESS });
    assert_eq!(k.ikm_body[..3].to_vec(), vec![desc(MACH_MSG_TYPE_INTEGER_32, 2, true), 0xAAAA, 0xBBBB]);
    assert_eq!(k.ikm_body[3], desc(MACH_MSG_TYPE_PORT_SEND, 2, true));
    assert_eq!((k.ikm_body[4], k.ikm_body[5]), (3, 0));
    assert_eq!((ports[3].ip_srights, ports[3].ip_references), (2, 3));
    assert_ne!(k.ikm_header.msgh_bits & MACH_MSGH_BITS_COMPLEX, 0);
}

#[test]
fn test_copyin_receive_right_links_destination() {
    let (mut space, _rcv, mut ports, mut acts) = setup();
    let mut k = kmsg(vec![desc(MACH_MSG_TYPE_MOVE_RECEIVE, 1, true), 0x50]);
    assert_eq!(ipc_kmsg_copyin_body(&mut k, &mut space, &mut ports, &mut acts), BodyStep::Done { mr: MACH_MSG_SUCCESS });
    assert_eq!(k.ikm_body, vec![desc(MACH_MSG_TYPE_PORT_RECEIVE, 1, true), 2]);
    assert_eq!((ports[2].ip_receiver_name, ports[2].ip_destination), (0, 1));
    assert_eq!(ports[1].ip_references, 3);
    assert_eq!(space.is_entries[2].ie_bits, 0);
}

#[test]
fn test_copyin_plain_message_loses_complex_bit() {
    let (mut space, _rcv, mut ports, mut acts) = setup();
    let long = mach_msg_type_t::new(0, 0, 0, 1, 1, 0, 0).bits;
    let mut k = kmsg(vec![desc(MACH_MSG_TYPE_INTEGER_32, 1, true), 5, long, MACH_MSG_TYPE_INTEGER_32 | (32 << 16), 1, 6]);
    assert_eq!(ipc_kmsg_copyin_body(&mut k, &mut space, &mut ports, &mut acts), BodyStep::Done { mr: MACH_MSG_SUCCESS });
    assert_eq!(k.ikm_header.msgh_bits & MACH_MSGH_BITS_COMPLEX, 0);
}

#[test]
fn test_copyin_errors_release_the_message() {
    let (mut space, _rcv, mut ports, mut acts) = setup();
    let bad = mach_msg_type_t::new(MACH_MSG_TYPE_INTEGER_32, 32, 1, 1, 0, 0, 1).bits;
    let mut k = kmsg(vec![bad, 1]);
    assert_eq!(ipc_kmsg_copyin_body(&mut k, &mut space, &mut ports, &mut acts), BodyStep::Done { mr: MACH_SEND_INVALID_TYPE });
    // the destination's send right went with the message
    assert_eq!((ports[1].ip_srights, ports[1].ip_references), (0, 1));

    let (mut space, _rcv, mut ports, mut acts) = setup();
    let mut k = kmsg(vec![desc(MACH_MSG_TYPE_INTEGER_32, 4, true), 1]);
    assert_eq!(ipc_kmsg_copyin_body(&mut k, &mut space, &mut ports, &mut acts), BodyStep::Done { mr: MACH_SEND_MSG_TOO_SMALL });

    // the second name is unknown: the right copied in first is destroyed again
    let (mut space, _rcv, mut ports, mut acts) = setup();
    let mut k = kmsg(vec![desc(MACH_MSG_TYPE_COPY_SEND, 2, true), 0x40, 0x77]);
    assert_eq!(ipc_kmsg_copyin_body(&mut k, &mut space, &mut ports, &mut acts), BodyStep::Done { mr: MACH_SEND_INVALID_RIGHT });
    assert_eq!((ports[3].ip_srights, ports[3].ip_references), (1, 2));
    assert_eq!((ports[1].ip_srights, ports[1].ip_references), (0, 1));
}

#[test]
fn test_copyin_out_of_line() {
    let (mut space, _rcv, mut ports, mut acts) = setup();
    let mut k = kmsg(vec![desc(MACH_MSG_TYPE_INTEGER_32, 4, false), 0x1000, desc(MACH_MSG_TYPE_COPY_SEND, 1, false), 0x2000]);
    let step = ipc_kmsg_copyin_body(&mut k, &mut space, &mut ports, &mut acts);
    assert_eq!(
        step,
        BodyStep::Ool { pos: 0, addr: 0x1000, length: 16, dealloc: false, ports: false, page_list: false, steal: false }
    );
    let step = ipc_kmsg_copyin_body_resume(&mut k, &mut space, &mut ports, &mut acts, 0, OolResult::Data { copy: 77 });
    assert_eq!(
        step,
        BodyStep::Ool { pos: 2, addr: 0x2000, length: 4, dealloc: false, ports: true, page_list: false, steal: false }
    );
    assert_eq!(k.ikm_body[1], 77);
    let step = ipc_kmsg_copyin_body_resume(&mut k, &mut space, &mut ports, &mut acts, 2, OolResult::Ports { names: vec![0x40] });
    assert_eq!(step, BodyStep::Done { mr: MACH_MSG_SUCCESS });
    assert_eq!(k.ikm_body[2], desc(MACH_MSG_TYPE_PORT_SEND, 1, false));
    assert_eq!(k.ikm_body[3], 0);
    assert_eq!(k.ikm_ool_ports, vec![vec![3]]);
    assert_eq!(ports[3].ip_srights, 2);
    // a region the memory system could not copy
    let (mut space, _rcv, mut ports, mut acts) = setup();
    let mut k = kmsg(vec![desc(MACH_MSG_TYPE_INTEGER_32, 4, false), 0x1000]);
    ipc_kmsg_copyin_body(&mut k, &mut space, &mut ports, &mut acts);
    assert_eq!(
        ipc_kmsg_copyin_body_resume(&mut k, &mut space, &mut ports, &mut acts, 0, OolResult::Failed),
        BodyStep::Done { mr: MACH_SEND_INVALID_MEMORY }
    );
}

#[test]
fn test_copyout_rights_and_memory() {
    let (mut space, mut rcv, mut ports, mut acts) = setup();
    let mut k = kmsg(vec![desc(MACH_MSG_TYPE_COPY_SEND, 2, true), 0x40, 0, desc(MACH_MSG_TYPE_INTEGER_32, 4, false), 0x1000]);
    assert_eq!(
        ipc_kmsg_copyin_body(&mut k, &mut space, &mut ports, &mut acts),
        BodyStep::Ool { pos: 3, addr: 0x1000, length: 16, dealloc: false, ports: false, page_list: false, steal: false }
    );
    assert_eq!(
        ipc_kmsg_copyin_body_resume(&mut k, &mut space, &mut ports, &mut acts, 3, OolResult::Data { copy: 77 }),
        BodyStep::Done { mr: MACH_MSG_SUCCESS }
    );
    // into space 7, which holds port 3's receive right: the send right joins it
    let fresh = vec![0x200, 0x201];
    let step = ipc_kmsg_copyout_body(&mut k, &mut rcv, &mut ports, &mut acts, &fresh);
    assert_eq!(step, CopyoutStep::Ool { pos: 3, copy: 77, length: 16, ports: false, used: 2, mr: MACH_MSG_SUCCESS });
    assert_eq!((k.ikm_body[1], k.ikm_body[2]), (0x99, 0));
    assert_eq!(rcv.is_entries[0].ie_bits, MACH_PORT_TYPE_RECEIVE | MACH_PORT_TYPE_SEND | 1);
    let step = ipc_kmsg_copyout_body_resume(&mut k, &mut rcv, &mut ports, &mut acts, 3, &fresh, 2, MACH_MSG_SUCCESS, Ok(0x5000));
    assert_eq!(step, CopyoutStep::Done { mr: MACH_MSG_SUCCESS });
    assert_eq!(k.ikm_body[4], 0x5000);
    assert_ne!(k.ikm_body[3] & 0x4000_0000, 0);
    // a map with no room: the copy is discarded
    let before = acts.len();
    let mut k2 = kmsg(vec![desc(MACH_MSG_TYPE_INTEGER_32, 4, false), 88]);
    let step = ipc_kmsg_copyout_body_resume(&mut k2, &mut rcv, &mut ports, &mut acts, 0, &fresh, 0, MACH_MSG_SUCCESS, Err(KERN_NO_SPACE));
    assert_eq!(step, CopyoutStep::Done { mr: MACH_MSG_VM_SPACE });
    assert_eq!(k2.ikm_body[1], 0);
    assert_eq!(acts[before..].to_vec(), vec![IpcAction::DiscardCopy { copy: 88 }]);
}

#[test]
fn test_clean_releases_everything() {
    let (space, _rcv, mut ports, mut acts) = setup();
    let k = kmsg(vec![desc(MACH_MSG_TYPE_PORT_SEND, 1, true), 3, desc(MACH_MSG_TYPE_INTEGER_32, 4, false), 66]);
    ipc_kmsg_clean(&k, &space, &mut ports, &mut acts);
    assert_eq!((ports[1].ip_srights, ports[1].ip_references), (0, 1));
    assert_eq!((ports[3].ip_srights, ports[3].ip_references), (0, 1));
    assert_eq!(acts.last(), Some(&IpcAction::DiscardCopy { copy: 66 }));
}

#[test]
fn test_copyin_then_copyout_whole_message() {
    let (mut space, _rcv, mut ports, mut acts) = setup();
    let mut k = kmsg(vec![desc(MACH_MSG_TYPE_COPY_SEND, 1, true), 0x40]);
    k.ikm_header.msgh_bits = MACH_MSGH_BITS(MACH_MSG_TYPE_MAKE_SEND, 0) | MACH_MSGH_BITS_COMPLEX;
    k.ikm_header.msgh_remote_port = 0x10;
    assert_eq!(ipc_kmsg_copyin(&mut k, &mut space, &mut ports, &mut acts, 0), BodyStep::Done { mr: MACH_MSG_SUCCESS });
    assert_eq!(k.ikm_header.msgh_remote_port, 1);
    assert_eq!(k.ikm_header.msgh_bits & 0xff, MACH_MSG_TYPE_PORT_SEND);
    assert_eq!((ports[1].ip_srights, ports[1].ip_mscount), (2, 1));
    assert_eq!(k.ikm_body[1], 3);
    // received back in the same space: the names it had
    let sizes: Vec<u32> = vec![0];
    let step = ipc_kmsg_copyout(&mut k, &mut space, &mut ports, &mut acts, &sizes, 0x300, &vec![0x301], 0);
    assert_eq!(step, CopyoutStep::Done { mr: MACH_MSG_SUCCESS });
    assert_eq!(k.ikm_header.msgh_local_port, 0x10);
    assert_eq!(k.ikm_body[1], 0x40);
    assert_eq!(space.is_entries[1].ie_bits, MACH_PORT_TYPE_SEND | 3);
}

#[test]
fn test_copyin_plain_header_only() {
    let (mut space, _rcv, mut ports, mut acts) = setup();
    let mut k = kmsg(vec![5, 6]);
    k.ikm_header.msgh_bits = MACH_MSGH_BITS(MACH_MSG_TYPE_MAKE_SEND, 0);
    k.ikm_header.msgh_remote_port = 0x10;
    assert_eq!(ipc_kmsg_copyin(&mut k, &mut space, &mut ports, &mut acts, 0), BodyStep::Done { mr: MACH_MSG_SUCCESS });
    assert_eq!(k.ikm_body, vec![5, 6]);
    let mut k2 = kmsg(Vec::new());
    k2.ikm_header.msgh_remote_port = 0x77;
    k2.ikm_header.msgh_bits = MACH_MSGH_BITS(MACH_MSG_TYPE_MAKE_SEND, 0);
    assert_ne!(ipc_kmsg_copyin(&mut k2, &mut space, &mut ports, &mut acts, 0), BodyStep::Done { mr: MACH_MSG_SUCCESS });
}

#[test]
fn test_copyout_dest_returns_message() {
    let (space, _rcv, mut ports, mut acts) = setup();
    let mut k = kmsg(vec![desc(MACH_MSG_TYPE_PORT_SEND, 1, true), 3]);
    ipc_kmsg_copyout_dest(&mut k, &space, &mut ports, &mut acts);
    assert_eq!(k.ikm_header.msgh_local_port, 0x10);
    assert_eq!(k.ikm_header.msgh_remote_port, 0);
    assert_eq!(k.ikm_header.msgh_bits & 0xffff, MACH_MSG_TYPE_PORT_SEND << 8);
    assert_eq!((ports[1].ip_srights, ports[3].ip_srights), (0, 0));
    // a dead destination comes back as a dead name
    let (space, _rcv, mut ports, mut acts) = setup();
    ports[1].ip_active = false;
    let mut k = kmsg(Vec::new());
    k.ikm_header.msgh_bits = MACH_MSGH_BITS(MACH_MSG_TYPE_PORT_SEND, 0);
    ipc_kmsg_copyout_dest(&mut k, &space, &mut ports, &mut acts);
    assert_eq!(k.ikm_header.msgh_local_port, MACH_PORT_NAME_DEAD);
    assert_eq!(ports[1].ip_references, 1);
}

#[test]
fn test_copyin_from_kernel() {
    let (space, _rcv, mut ports, acts) = setup();
    // port 4's receive right is the kernel's (space 9) under 0x900
    ports.push(port(0x900, 9, 0, 1));
    let mut k = kmsg(vec![desc(MACH_MSG_TYPE_MAKE_SEND_ONCE, 1, true), 4, desc(MACH_MSG_TYPE_MOVE_RECEIVE, 1, true), 4]);
    k.ikm_header.msgh_bits = MACH_MSGH_BITS_COMPLEX | MACH_MSG_TYPE_COPY_SEND;
    k.ikm_header.msgh_remote_port = 3;
    ipc_kmsg_copyin_from_kernel(&mut k, &space, &mut ports, &acts, 9);
    assert_eq!(k.ikm_header.msgh_bits, MACH_MSGH_BITS_COMPLEX | MACH_MSG_TYPE_PORT_SEND);
    assert_eq!((ports[3].ip_srights, ports[3].ip_references), (2, 4));
    assert_eq!(k.ikm_body[0], desc(MACH_MSG_TYPE_PORT_SEND_ONCE, 1, true));
    assert_eq!(k.ikm_body[2], desc(MACH_MSG_TYPE_PORT_RECEIVE, 1, true));
    assert_eq!(ports[4].ip_sorights, 1);
    // the receive right travels to port 3
    assert_eq!((ports[4].ip_receiver_name, ports[4].ip_destination, ports[4].ip_mscount), (0, 3, 0));
    assert_eq!(k.ikm_header.msgh_bits & MACH_MSGH_BITS_CIRCULAR, 0);
}

#[test]
fn test_object_copyin_from_kernel_rights() {
    let (_space, _rcv, mut ports, _acts) = setup();
    ports.push(port(0x900, 9, 0, 1));
    ipc_object_copyin_from_kernel(&mut ports, 4, MACH_MSG_TYPE_MAKE_SEND, 9);
    assert_eq!((ports[4].ip_srights, ports[4].ip_mscount, ports[4].ip_references), (1, 1, 2));
    ipc_object_copyin_from_kernel(&mut ports, 4, MACH_MSG_TYPE_COPY_SEND, 9);
    assert_eq!((ports[4].ip_srights, ports[4].ip_references), (2, 3));
    ipc_object_copyin_from_kernel(&mut ports, 4, MACH_MSG_TYPE_MOVE_SEND, 9);
    assert_eq!((ports[4].ip_srights, ports[4].ip_references), (2, 3));
    ports[4].ip_active = false;
    ipc_object_copyin_from_kernel(&mut ports, 4, MACH_MSG_TYPE_COPY_SEND, 9);
    assert_eq!((ports[4].ip_srights, ports[4].ip_references), (2, 4));
}

#[test]
fn test_copyout_pseudo() {
    let (_space, mut rcv, mut ports, mut acts) = setup();
    let mut k = kmsg(Vec::new());
    k.ikm_header.msgh_bits = MACH_MSGH_BITS(MACH_MSG_TYPE_PORT_SEND, 0) | MACH_MSGH_BITS_CIRCULAR;
    k.ikm_header.msgh_remote_port = 3;
    let step = ipc_kmsg_copyout_pseudo(&mut k, &mut rcv, &mut ports, &mut acts, 0x300, 0x301, &Vec::new());
    assert_eq!(step, CopyoutStep::Done { mr: MACH_MSG_SUCCESS });
    assert_eq!((k.ikm_header.msgh_remote_port, k.ikm_header.msgh_local_port), (0x99, 0));
    assert_eq!(k.ikm_header.msgh_bits & MACH_MSGH_BITS_CIRCULAR, 0);
    assert_eq!(rcv.is_entries[0].ie_bits, MACH_PORT_TYPE_RECEIVE | MACH_PORT_TYPE_SEND | 1);
}

#[test]
fn test_copyin_refuses_payload_items() {
    let (mut space, _rcv, mut ports, mut acts) = setup();
    let mut k = kmsg(vec![desc(gnumach::mach_types::MACH_MSG_TYPE_PROTECTED_PAYLOAD, 1, true), 0x50]);
    assert_eq!(ipc_kmsg_copyin_body(&mut k, &mut space, &mut ports, &mut acts), BodyStep::Done { mr: MACH_SEND_INVALID_TYPE });
}

#[test]
fn test_copyin_inline_length_past_32_bits_is_too_small() {
    let (mut space, _rcv, mut ports, mut acts) = setup();
    let long = mach_msg_type_t::new(0, 0, 0, 1, 1, 0, 0).bits;
    let mut k = kmsg(vec![long, MACH_MSG_TYPE_COPY_SEND | (32 << 16), 0x4000_0001, 0x40]);
    assert_eq!(ipc_kmsg_copyin_body(&mut k, &mut space, &mut ports, &mut acts), BodyStep::Done { mr: MACH_SEND_MSG_TOO_SMALL });
}

#[test]
fn test_copyin_out_of_line_length_past_32_bits_is_refused() {
    let (mut space, _rcv, mut ports, mut acts) = setup();
    let long = mach_msg_type_t::new(0, 0, 0, 0, 1, 0, 0).bits;
    let mut k = kmsg(vec![long, MACH_MSG_TYPE_INTEGER_32 | (32 << 16), 0x4000_0001, 0x1000]);
    assert_eq!(ipc_kmsg_copyin_body(&mut k, &mut space, &mut ports, &mut acts), BodyStep::Done { mr: MACH_SEND_INVALID_MEMORY });
}

#[test]
fn test_clean_destroys_the_msg_accepted_request_first() {
    let (space, _rcv, mut ports, mut acts) = setup();
    let mut k = kmsg(vec![desc(MACH_MSG_TYPE_INTEGER_32, 1, true), 5]);
    k.ikm_marequest = Some(4);
    ipc_kmsg_clean(&k, &space, &mut ports, &mut acts);
    assert_eq!(acts[0], IpcAction::DestroyMarequest { marequest: 4 });
}
