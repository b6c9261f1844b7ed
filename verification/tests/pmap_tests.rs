use gnumach::pmap::{
    _kvtophys, intel_btop, intel_prot_to_pte_bits, kvtolin, phystokv, pmap_activate, pmap_change_wiring,
    pmap_clear_modify, pmap_clear_reference, pmap_collect, pmap_create, pmap_deactivate, pmap_destroy,
    pmap_enter, pmap_extract, pmap_get_mapwindow, pmap_init, pmap_is_modified, pmap_is_referenced,
    pmap_kernel, pmap_make_temporary_mapping, pmap_map_bd, pmap_page_protect, pmap_pde, pmap_protect,
    pmap_pte, pmap_put_mapwindow, pmap_reference, pmap_remove, pmap_remove_temporary_mapping,
    pmap_resident_count, pmap_set_page_dir, pmap_unmap_page_zero, pmap_virtual_space, pa_index,
    ptetokv, pv_lock_table_size, valid_page, Pmap, PmapConfig, PmapMapwindow, PmapSystem, PvEntry,
};
use gnumach::pmap_types::{
    lin2l4num, lin2pdenum_cont, lin2pdpnum, pagenum2lin, PmapStatistics, VM_PROT_ALL, VM_PROT_EXECUTE,
    VM_PROT_NONE, VM_PROT_READ, VM_PROT_WRITE,
};

fn config() -> PmapConfig {
    PmapConfig {
        first_managed_page: 0x10,
        initialized: true,
        vm_page_ready: true,
        directmap_end: 0x1000_0000,
        cpu_type: 17,
        kernel_virtual_start: 0xC100_0000,
        kernel_virtual_end: 0xC800_0000,
    }
}

/// Sixteen pages of page-table memory, a kernel pmap with an empty
/// directory, sixteen managed pages from 0x10000, three free page-table
/// pages and one free directory page.
fn new_sys() -> PmapSystem {
    PmapSystem {
        mem: vec![0u32; 16 * 1024],
        pmaps: vec![Pmap {
            dir: vec![0u32; 1024],
            dirbase: 0xF000,
            ref_count: 1,
            stats: PmapStatistics { resident_count: 0, wired_count: 0 },
            cpus_using: 0,
        }],
        pv_head_table: vec![Vec::new(); 16],
        phys_attributes: vec![0u8; 16],
        pt_free: vec![0x1000, 0x2000, 0x3000],
        pd_free: vec![0xE000],
        mapwindows: vec![
            PmapMapwindow { entry: 0x4000 / 4 + 1022, vaddr: 0xC7FF_E000 },
            PmapMapwindow { entry: 0x4000 / 4 + 1023, vaddr: 0xC7FF_F000 },
        ],
        cfg: config(),
    }
}

/// Word of the entry for the first page of the first user table (frame 0x3000).
const W0: usize = 0x3000 / 4;

#[test]
fn test_create_copies_kernel_directory() {
    let mut sys = new_sys();
    sys.pmaps[0].dir[0] = 0x5003;
    sys.pmaps[0].dir[800] = 0x6003;
    assert_eq!(pmap_create(&mut sys, 0), Some(1));
    assert_eq!(sys.pmaps[1].dir[0], 0);
    assert_eq!(sys.pmaps[1].dir[800], 0x6003);
    assert_eq!(sys.pmaps[1].dirbase, 0xE000);
    assert_eq!(sys.pmaps[1].ref_count, 1);
    assert!(sys.pd_free.is_empty());
    assert_eq!(pmap_create(&mut sys, 0), None);
    assert_eq!(pmap_create(&mut sys, 4096), None);
}

#[test]
fn test_enter_then_extract() {
    let mut sys = new_sys();
    let p = pmap_create(&mut sys, 0).unwrap();
    assert!(pmap_enter(&mut sys, p, 0x0040_0000, 0x0001_2000, VM_PROT_READ | VM_PROT_WRITE, false));
    assert_eq!(sys.pmaps[p].dir[1], 0x3000 | 7);
    assert_eq!(sys.mem[W0], 0x12000 | 1 | 4 | 2);
    assert_eq!(pmap_extract(&sys, p, 0x0040_0123), 0x12123);
    assert_eq!(pmap_extract(&sys, p, 0x0040_1000), 0);
    assert_eq!(pmap_extract(&sys, p, 0x0080_0000), 0);
    assert_eq!(sys.pmaps[p].stats.resident_count, 1);
    assert_eq!(sys.pv_head_table[2], vec![PvEntry { pmap: 1, va: 0x40_0000 }]);
    assert_eq!(sys.pt_free, vec![0x1000, 0x2000]);
    assert_eq!(pmap_pde(&sys, p, 0x0040_0000), Some(1));
    assert_eq!(pmap_pte(&sys, p, 0x0040_1000), Some(W0 + 1));
    assert_eq!(pmap_pte(&sys, p, 0x0080_0000), None);
}

#[test]
fn test_enter_device_memory_is_uncached() {
    let mut sys = new_sys();
    let p = pmap_create(&mut sys, 0).unwrap();
    assert!(pmap_enter(&mut sys, p, 0x0040_1000, 0x3000_0000, VM_PROT_READ, false));
    assert_eq!(sys.mem[W0 + 1], 0x3000_0000 | 1 | 4 | 0x10 | 0x08);
    assert!(sys.pv_head_table.iter().all(|l| l.is_empty()));
}

#[test]
fn test_enter_kernel_mapping_has_no_user_bit() {
    let mut sys = new_sys();
    sys.pmaps[0].dir[772] = 0x2000 | 3;
    assert!(pmap_enter(&mut sys, 0, 0xC100_0000, 0x0001_5000, VM_PROT_READ | VM_PROT_WRITE, false));
    assert_eq!(sys.mem[0x2000 / 4], 0x15000 | 1 | 2);
    assert_eq!(pmap_extract(&sys, 0, 0xC100_0010), 0x15010);
}

#[test]
fn test_enter_without_free_table_changes_nothing() {
    let mut sys = new_sys();
    sys.pt_free.clear();
    let p = pmap_create(&mut sys, 0).unwrap();
    let mem = sys.mem.clone();
    assert!(!pmap_enter(&mut sys, p, 0x0040_0000, 0x0001_2000, VM_PROT_READ, false));
    assert_eq!(sys.mem, mem);
    assert_eq!(sys.pmaps[p].dir[1], 0);
    assert_eq!(sys.pmaps[p].stats.resident_count, 0);
    assert!(sys.pv_head_table[2].is_empty());
}

#[test]
fn test_reenter_same_page_changes_wiring_and_keeps_modified() {
    let mut sys = new_sys();
    let p = pmap_create(&mut sys, 0).unwrap();
    assert!(pmap_enter(&mut sys, p, 0x0040_0000, 0x0001_2000, VM_PROT_READ | VM_PROT_WRITE, false));
    sys.mem[W0] |= 0x40;
    assert!(pmap_enter(&mut sys, p, 0x0040_0000, 0x0001_2000, VM_PROT_READ, true));
    assert_eq!(sys.mem[W0], 0x12000 | 1 | 4 | 0x200 | 0x40);
    assert_eq!(sys.pmaps[p].stats.resident_count, 1);
    assert_eq!(sys.pmaps[p].stats.wired_count, 1);
    assert_eq!(sys.pv_head_table[2].len(), 1);
}

#[test]
fn test_enter_replaces_other_page() {
    let mut sys = new_sys();
    let p = pmap_create(&mut sys, 0).unwrap();
    assert!(pmap_enter(&mut sys, p, 0x0040_0000, 0x0001_2000, VM_PROT_READ, true));
    sys.mem[W0] |= 0x60;
    assert!(pmap_enter(&mut sys, p, 0x0040_0000, 0x0001_3000, VM_PROT_READ, false));
    assert_eq!(sys.phys_attributes[2], 0x60);
    assert!(sys.pv_head_table[2].is_empty());
    assert_eq!(sys.pv_head_table[3], vec![PvEntry { pmap: 1, va: 0x40_0000 }]);
    assert_eq!(sys.pmaps[p].stats.resident_count, 1);
    assert_eq!(sys.pmaps[p].stats.wired_count, 0);
    assert_eq!(pmap_extract(&sys, p, 0x0040_0000), 0x13000);
}

#[test]
fn test_second_mapping_goes_after_head() {
    let mut sys = new_sys();
    let p = pmap_create(&mut sys, 0).unwrap();
    assert!(pmap_enter(&mut sys, p, 0x0040_0000, 0x0001_2000, VM_PROT_READ, false));
    assert!(pmap_enter(&mut sys, p, 0x0040_1000, 0x0001_2000, VM_PROT_READ, false));
    assert!(pmap_enter(&mut sys, p, 0x0040_2000, 0x0001_2000, VM_PROT_READ, false));
    assert_eq!(
        sys.pv_head_table[2],
        vec![
            PvEntry { pmap: 1, va: 0x40_0000 },
            PvEntry { pmap: 1, va: 0x40_2000 },
            PvEntry { pmap: 1, va: 0x40_1000 },
        ]
    );
}

#[test]
fn test_remove_then_extract() {
    let mut sys = new_sys();
    let p = pmap_create(&mut sys, 0).unwrap();
    assert!(pmap_enter(&mut sys, p, 0x0040_0000, 0x0001_2000, VM_PROT_READ, false));
    assert!(pmap_enter(&mut sys, p, 0x0040_1000, 0x0001_3000, VM_PROT_READ, true));
    assert!(pmap_enter(&mut sys, p, 0x0040_2000, 0x0001_4000, VM_PROT_READ, false));
    sys.mem[W0] |= 0x20;
    pmap_remove(&mut sys, p, 0x0040_0000, 0x0040_2000);
    assert_eq!(pmap_extract(&sys, p, 0x0040_0000), 0);
    assert_eq!(pmap_extract(&sys, p, 0x0040_1abc), 0);
    assert_eq!(pmap_extract(&sys, p, 0x0040_2000), 0x14000);
    assert_eq!(sys.pmaps[p].stats.resident_count, 1);
    assert_eq!(sys.pmaps[p].stats.wired_count, 0);
    assert_eq!(sys.phys_attributes[2], 0x20);
    assert!(sys.pv_head_table[2].is_empty());
    assert!(sys.pv_head_table[3].is_empty());
    assert_eq!(sys.pv_head_table[4].len(), 1);
}

#[test]
fn test_remove_across_directory_entries() {
    let mut sys = new_sys();
    let p = pmap_create(&mut sys, 0).unwrap();
    assert!(pmap_enter(&mut sys, p, 0x007F_F000, 0x0001_2000, VM_PROT_READ, false));
    assert!(pmap_enter(&mut sys, p, 0x0080_0000, 0x0001_3000, VM_PROT_READ, false));
    assert_eq!(sys.pmaps[p].stats.resident_count, 2);
    pmap_remove(&mut sys, p, 0x0070_0000, 0x0090_0000);
    assert_eq!(pmap_extract(&sys, p, 0x007F_F000), 0);
    assert_eq!(pmap_extract(&sys, p, 0x0080_0000), 0);
    assert_eq!(sys.pmaps[p].stats.resident_count, 0);
}

#[test]
fn test_protect_read_only_keeps_translation() {
    let mut sys = new_sys();
    let p = pmap_create(&mut sys, 0).unwrap();
    assert!(pmap_enter(&mut sys, p, 0x0040_0000, 0x0001_2000, VM_PROT_READ | VM_PROT_WRITE, false));
    pmap_protect(&mut sys, p, 0x0040_0000, 0x0040_1000, VM_PROT_READ | VM_PROT_WRITE);
    assert_eq!(sys.mem[W0] & 2, 2);
    pmap_protect(&mut sys, p, 0x0040_0000, 0x0040_1000, VM_PROT_READ | VM_PROT_EXECUTE);
    assert_eq!(sys.mem[W0] & 2, 0);
    assert_eq!(pmap_extract(&sys, p, 0x0040_0042), 0x12042);
    assert_eq!(sys.pmaps[p].stats.resident_count, 1);
}

#[test]
fn test_protect_none_removes() {
    let mut sys = new_sys();
    let p = pmap_create(&mut sys, 0).unwrap();
    assert!(pmap_enter(&mut sys, p, 0x0040_0000, 0x0001_2000, VM_PROT_ALL, false));
    pmap_protect(&mut sys, p, 0x0040_0000, 0x0040_1000, VM_PROT_NONE);
    assert_eq!(pmap_extract(&sys, p, 0x0040_0000), 0);
    assert_eq!(sys.pmaps[p].stats.resident_count, 0);
}

#[test]
fn test_clear_modify_then_is_modified() {
    let mut sys = new_sys();
    let p = pmap_create(&mut sys, 0).unwrap();
    assert!(pmap_enter(&mut sys, p, 0x0040_0000, 0x0001_2000, VM_PROT_ALL, false));
    assert!(!pmap_is_modified(&sys, 0x12000));
    sys.mem[W0] |= 0x40;
    assert!(pmap_is_modified(&sys, 0x12000));
    assert!(!pmap_is_referenced(&sys, 0x12000));
    pmap_clear_modify(&mut sys, 0x12000);
    assert!(!pmap_is_modified(&sys, 0x12000));
    assert_eq!(pmap_extract(&sys, p, 0x0040_0000), 0x12000);
    sys.phys_attributes[2] = 0x20;
    assert!(pmap_is_referenced(&sys, 0x12000));
    pmap_clear_reference(&mut sys, 0x12000);
    assert!(!pmap_is_referenced(&sys, 0x12000));
    assert!(!pmap_is_modified(&sys, 0x9000));
}

#[test]
fn test_page_protect_read_write_protects_user_and_removes_kernel() {
    let mut sys = new_sys();
    sys.pmaps[0].dir[772] = 0x2000 | 3;
    sys.pt_free.retain(|&f| f != 0x2000);
    let p = pmap_create(&mut sys, 0).unwrap();
    assert!(pmap_enter(&mut sys, p, 0x0040_0000, 0x0001_2000, VM_PROT_ALL, false));
    assert!(pmap_enter(&mut sys, 0, 0xC100_0000, 0x0001_2000, VM_PROT_ALL, false));
    pmap_page_protect(&mut sys, 0x12000, VM_PROT_READ);
    assert_eq!(sys.mem[W0] & 2, 0);
    assert_eq!(sys.mem[W0] & 1, 1);
    assert_eq!(sys.mem[0x2000 / 4], 0);
    assert_eq!(pmap_extract(&sys, p, 0x0040_0000), 0x12000);
    assert_eq!(pmap_extract(&sys, 0, 0xC100_0000), 0);
    assert_eq!(sys.pv_head_table[2], vec![PvEntry { pmap: 1, va: 0x40_0000 }]);
    assert_eq!(sys.pmaps[0].stats.resident_count, 0);
}

#[test]
fn test_page_protect_none_removes_all() {
    let mut sys = new_sys();
    let p = pmap_create(&mut sys, 0).unwrap();
    assert!(pmap_enter(&mut sys, p, 0x0040_0000, 0x0001_2000, VM_PROT_ALL, true));
    assert!(pmap_enter(&mut sys, p, 0x0040_1000, 0x0001_2000, VM_PROT_ALL, false));
    let first = sys.mem[W0];
    sys.mem[W0] = first | 0x40;
    pmap_page_protect(&mut sys, 0x12000, VM_PROT_ALL);
    assert_eq!(sys.pv_head_table[2].len(), 2);
    pmap_page_protect(&mut sys, 0x12000, VM_PROT_NONE);
    assert!(sys.pv_head_table[2].is_empty());
    assert_eq!(sys.phys_attributes[2], 0x40);
    assert_eq!(sys.pmaps[p].stats.resident_count, 0);
    assert_eq!(sys.pmaps[p].stats.wired_count, 0);
    assert_eq!(pmap_extract(&sys, p, 0x0040_1000), 0);
}

#[test]
fn test_change_wiring() {
    let mut sys = new_sys();
    let p = pmap_create(&mut sys, 0).unwrap();
    assert!(pmap_enter(&mut sys, p, 0x0040_0000, 0x0001_2000, VM_PROT_READ, false));
    pmap_change_wiring(&mut sys, p, 0x0040_0000, true);
    assert_eq!(sys.mem[W0] & 0x200, 0x200);
    assert_eq!(sys.pmaps[p].stats.wired_count, 1);
    pmap_change_wiring(&mut sys, p, 0x0040_0000, true);
    assert_eq!(sys.pmaps[p].stats.wired_count, 1);
    pmap_change_wiring(&mut sys, p, 0x0040_0000, false);
    assert_eq!(sys.mem[W0] & 0x200, 0);
    assert_eq!(sys.pmaps[p].stats.wired_count, 0);
}

#[test]
fn test_reference_and_destroy() {
    let mut sys = new_sys();
    sys.pmaps[0].dir[800] = 0x1000 | 3;
    sys.pt_free.retain(|&f| f != 0x1000);
    let p = pmap_create(&mut sys, 0).unwrap();
    assert!(pmap_enter(&mut sys, p, 0x0040_0000, 0x0001_2000, VM_PROT_READ, false));
    pmap_reference(&mut sys, p);
    assert_eq!(sys.pmaps[p].ref_count, 2);
    pmap_destroy(&mut sys, p);
    assert_eq!(sys.pmaps[p].ref_count, 1);
    assert_eq!(sys.pmaps[p].dir.len(), 1024);
    pmap_destroy(&mut sys, p);
    assert_eq!(sys.pmaps[p].ref_count, 0);
    assert!(sys.pmaps[p].dir.is_empty());
    assert_eq!(sys.pt_free, vec![0x2000, 0x3000]);
    assert_eq!(sys.pd_free, vec![0xE000]);
}

#[test]
fn test_collect_reclaims_unwired_tables() {
    let mut sys = new_sys();
    let p = pmap_create(&mut sys, 0).unwrap();
    assert!(pmap_enter(&mut sys, p, 0x0040_0000, 0x0001_2000, VM_PROT_READ, false));
    assert!(pmap_enter(&mut sys, p, 0x0080_0000, 0x0001_3000, VM_PROT_READ, true));
    pmap_collect(&mut sys, p);
    assert_eq!(sys.pmaps[p].dir[1], 0);
    assert_eq!(sys.pmaps[p].dir[2], 0x2000 | 7);
    assert_eq!(sys.pt_free, vec![0x1000, 0x3000]);
    assert_eq!(sys.pmaps[p].stats.resident_count, 1);
    assert!(sys.pv_head_table[2].is_empty());
    assert_eq!(pmap_extract(&sys, p, 0x0080_0000), 0x13000);
    pmap_collect(&mut sys, 0);
}

#[test]
fn test_map_bd() {
    let mut sys = new_sys();
    sys.pmaps[0].dir[772] = 0x2000 | 3;
    let end = pmap_map_bd(&mut sys, 0xC100_0000, 0x3000_0000, 0x3000_2000, VM_PROT_READ | VM_PROT_WRITE);
    assert_eq!(end, 0xC100_2000);
    assert_eq!(sys.mem[0x2000 / 4], 0x3000_001B);
    assert_eq!(sys.mem[0x2000 / 4 + 1], 0x3000_101B);
    assert_eq!(sys.mem[0x2000 / 4 + 2], 0);
    let end = pmap_map_bd(&mut sys, 0xC100_4000, 0x3000_0800, 0x3000_0900, VM_PROT_READ);
    assert_eq!(end, 0xC100_5000);
    assert_eq!(sys.mem[0x2000 / 4 + 4], 0x3000_0019);
    assert_eq!(pmap_map_bd(&mut sys, 0xC100_8000, 0x10, 0x10, VM_PROT_READ), 0xC100_8000);
}

#[test]
fn test_mapwindows() {
    let mut sys = new_sys();
    assert_eq!(pmap_get_mapwindow(&mut sys, 0x12003), 0);
    assert_eq!(sys.mem[0x4000 / 4 + 1022], 0x12003);
    assert_eq!(pmap_get_mapwindow(&mut sys, 0x13003), 1);
    pmap_put_mapwindow(&mut sys, 0);
    assert_eq!(sys.mem[0x4000 / 4 + 1022], 0);
    assert_eq!(pmap_get_mapwindow(&mut sys, 0x14003), 0);
}

#[test]
fn test_virtual_space_and_init() {
    let mut sys = new_sys();
    assert_eq!(pmap_virtual_space(&sys), (0xC100_0000, 0xC7FF_E000));
    sys.cfg.initialized = false;
    assert!(!valid_page(&sys, 0x12000));
    pmap_init(&mut sys, 5);
    assert!(sys.cfg.initialized);
    assert_eq!(sys.pv_head_table.len(), 5);
    assert_eq!(sys.phys_attributes, vec![0u8; 5]);
    assert!(valid_page(&sys, 0x14fff));
    assert!(!valid_page(&sys, 0x15000));
    assert!(!valid_page(&sys, 0xF000));
    assert_eq!(pa_index(&sys, 0x14fff), 4);
}

#[test]
fn test_temporary_mapping() {
    let mut sys = new_sys();
    for i in 768..1024 {
        sys.pmaps[0].dir[i] = 0;
    }
    sys.pmaps[0].dir[768] = 0x1003;
    sys.pmaps[0].dir[769] = 0x2003;
    sys.pmaps[0].dir[1000] = 0x3003;
    pmap_make_temporary_mapping(&mut sys);
    assert_eq!(sys.pmaps[0].dir[0], 0x1003);
    assert_eq!(sys.pmaps[0].dir[1], 0x2003);
    assert_eq!(sys.pmaps[0].dir[232], 0x3003);
    assert_eq!(sys.pmaps[0].dir[768], 0x1003);
    pmap_remove_temporary_mapping(&mut sys);
    assert_eq!(sys.pmaps[0].dir[0], 0x1003);
    assert_eq!(sys.pmaps[0].dir[1], 0);
    assert_eq!(sys.pmaps[0].dir[232], 0);
    assert_eq!(sys.pmaps[0].dir[1000], 0x3003);
}

#[test]
fn test_unmap_page_zero() {
    let mut sys = new_sys();
    pmap_unmap_page_zero(&mut sys);
    sys.pmaps[0].dir[0] = 0x1000 | 3;
    sys.mem[0x1000 / 4] = 0x5003;
    sys.mem[0x1000 / 4 + 1] = 0x6003;
    pmap_unmap_page_zero(&mut sys);
    assert_eq!(sys.mem[0x1000 / 4], 0);
    assert_eq!(sys.mem[0x1000 / 4 + 1], 0x6003);
}

#[test]
fn test_activation_and_accessors() {
    let mut sys = new_sys();
    let p = pmap_create(&mut sys, 0).unwrap();
    assert_eq!(pmap_activate(&mut sys, p), 0xE000);
    assert_eq!(sys.pmaps[p].cpus_using, 1);
    pmap_deactivate(&mut sys, p);
    assert_eq!(sys.pmaps[p].cpus_using, 0);
    assert_eq!(pmap_set_page_dir(&sys), 0xF000);
    assert_eq!(pmap_kernel(), 0);
    assert!(pmap_enter(&mut sys, p, 0x0040_0000, 0x0001_2000, VM_PROT_READ, false));
    assert_eq!(pmap_resident_count(&sys, p), 1);
}

#[test]
fn test_address_helpers() {
    assert_eq!(intel_prot_to_pte_bits(VM_PROT_READ), 4);
    assert_eq!(intel_prot_to_pte_bits(VM_PROT_READ | VM_PROT_WRITE), 6);
    assert_eq!(pv_lock_table_size(0), 0);
    assert_eq!(pv_lock_table_size(8), 1);
    assert_eq!(pv_lock_table_size(9), 2);
    assert_eq!(intel_btop(0x3FFF), 3);
    assert_eq!(phystokv(0x1000), 0xC000_1000);
    assert_eq!(phystokv(0x4000_0000), 0);
    assert_eq!(_kvtophys(0xC000_2000), 0x2000);
    assert_eq!(kvtolin(0xC123_4567), 0xC123_4567);
    assert_eq!(ptetokv(0x1234_5067), 0xD234_5000);
}

#[test]
fn test_wider_paging_helpers() {
    assert_eq!(lin2l4num(1usize << 39), 1);
    assert_eq!(lin2pdpnum(0x4000_0000), 1);
    assert_eq!(lin2pdpnum(0xC000_0000), 3);
    assert_eq!(lin2pdenum_cont(0x0020_0000), 1);
    assert_eq!(lin2pdenum_cont(0xC000_0000), 0x600);
    assert_eq!(pagenum2lin(0, 0, 1, 1), 0x0040_1000);
    assert_eq!(pagenum2lin(7, 7, 0x3FF, 0x3FF), 0xFFFF_F000);
}
