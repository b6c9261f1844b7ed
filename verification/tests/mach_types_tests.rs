use gnumach::mach_types::{
    io_makebits, ip_timestamp_order, mach_msg_kernel_align, mach_msg_kernel_is_misaligned, mach_msg_type_t,
    mach_msgh_bits_remote, mach_port_name_valid, rdxtree_key_of, round_page, MACH_MSGH_BITS,
    MACH_MSGH_BITS_LOCAL, MACH_MSGH_BITS_OTHER, MACH_MSGH_BITS_PORTS, MACH_MSG_TYPE_PORT_ANY,
    MACH_MSG_TYPE_PORT_ANY_RIGHT, MACH_MSG_TYPE_PORT_ANY_SEND, MACH_PORT_TYPE,
};

#[test]
fn test_msgh_bits() {
    let b = MACH_MSGH_BITS(17, 21);
    assert_eq!(b, 17 | (21 << 8));
    assert_eq!(mach_msgh_bits_remote(b | 0x8000_0000), 17);
    assert_eq!(MACH_MSGH_BITS_LOCAL(b | 0x8000_0000), 21);
    assert_eq!(MACH_MSGH_BITS_PORTS(b | 0x8000_0000), b);
    assert_eq!(MACH_MSGH_BITS_OTHER(b | 0x8000_0000), 0x8000_0000);
}

#[test]
fn test_port_type_of_right() {
    assert_eq!(MACH_PORT_TYPE(0), 0x0001_0000);
    assert_eq!(MACH_PORT_TYPE(4), 0x0010_0000);
}

#[test]
fn test_msg_type_kinds() {
    assert!(MACH_MSG_TYPE_PORT_ANY_RIGHT(16));
    assert!(MACH_MSG_TYPE_PORT_ANY_RIGHT(18));
    assert!(!MACH_MSG_TYPE_PORT_ANY_RIGHT(19));
    assert!(MACH_MSG_TYPE_PORT_ANY(16));
    assert!(!MACH_MSG_TYPE_PORT_ANY(15));
    assert!(MACH_MSG_TYPE_PORT_ANY(21));
    assert!(!MACH_MSG_TYPE_PORT_ANY(22));
    assert!(!MACH_MSG_TYPE_PORT_ANY(14));
    assert!(MACH_MSG_TYPE_PORT_ANY(23));
    assert!(MACH_MSG_TYPE_PORT_ANY_SEND(17));
    assert!(MACH_MSG_TYPE_PORT_ANY_SEND(21));
    assert!(!MACH_MSG_TYPE_PORT_ANY_SEND(16));
}

#[test]
fn test_type_descriptor_fields() {
    let mut t = mach_msg_type_t::new(0x1ff, 32, 0x1234, 1, 0, 1, 0);
    assert_eq!(t.msgt_name(), 0xff);
    assert_eq!(t.msgt_size(), 32);
    assert_eq!(t.msgt_number(), 0x234);
    assert_eq!(t.msgt_inline(), 1);
    assert_eq!(t.msgt_longform(), 0);
    assert_eq!(t.msgt_deallocate(), 1);
    assert_eq!(t.msgt_unused(), 0);
    t.set_msgt_name(17);
    t.set_msgt_size(8);
    t.set_msgt_deallocate(0);
    assert_eq!(t.msgt_name(), 17);
    assert_eq!(t.msgt_size(), 8);
    assert_eq!(t.msgt_deallocate(), 0);
    assert_eq!(t.msgt_number(), 0x234);
    assert_eq!(t.msgt_inline(), 1);
}

#[test]
fn test_alignment_helpers() {
    assert_eq!(round_page(1), 4096);
    assert_eq!(round_page(4096), 4096);
    assert_eq!(round_page(0), 0);
    assert_eq!(mach_msg_kernel_align(5), 8);
    assert_eq!(mach_msg_kernel_align(8), 8);
    assert!(mach_msg_kernel_is_misaligned(6));
    assert!(!mach_msg_kernel_is_misaligned(12));
}

#[test]
fn test_names_and_objects() {
    assert!(mach_port_name_valid(5));
    assert!(!mach_port_name_valid(0));
    assert!(!mach_port_name_valid(0xFFFF_FFFF));
    assert!(ip_timestamp_order(1, 2));
    assert!(!ip_timestamp_order(2, 1));
    assert!(ip_timestamp_order(0xFFFF_FFFF, 1));
    assert_eq!(io_makebits(true, 1, 10), 0x8000_0000 | (1 << 16) | 10);
    assert_eq!(io_makebits(false, 0, 0), 0);
    assert_eq!(rdxtree_key_of(0xC000_0010), 2);
}
