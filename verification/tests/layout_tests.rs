use imggen::layout::{plan_layout, LayoutConfig, Scheme};
use imggen::mbr::encode_partition_table;
use imggen::ImageError;

const GIB2: u64 = 2 * 1024 * 1024 * 1024;

#[test]
fn single_root_two_gib() {
    let cfg = LayoutConfig::standard();
    let plan = plan_layout(GIB2, Scheme::SingleRoot, cfg).unwrap();
    assert_eq!(plan.total_sectors, 4194304);
    assert_eq!(plan.entries.len(), 2);
    let boot = plan.entries[0];
    assert!(boot.active);
    assert_eq!(boot.type_code, 0x0C);
    assert_eq!(boot.start_lba, 2048);
    assert_eq!(boot.size_sectors, 524288);
    let root = plan.entries[1];
    assert!(!root.active);
    assert_eq!(root.type_code, 0x83);
    assert_eq!(root.start_lba, 526336);
    // The root partition absorbs every whole sector after its start.
    assert_eq!(root.size_sectors, 4194304 - root.start_lba);
}

#[test]
fn dual_root_two_gib() {
    let cfg = LayoutConfig::standard();
    let plan = plan_layout(GIB2, Scheme::DualRoot, cfg).unwrap();
    assert_eq!(plan.entries.len(), 4);
    let boot = plan.entries[0];
    assert!(boot.active);
    assert_eq!(boot.type_code, 0x0C);
    assert_eq!(boot.start_lba, 2048);
    assert_eq!(boot.size_sectors, 524288);
    let root_a = plan.entries[1];
    assert_eq!(root_a.start_lba, 526336);
    assert_eq!(root_a.size_sectors, 524288);
    let root_b = plan.entries[2];
    assert_eq!(root_b.start_lba, 1050624);
    assert_eq!(root_b.size_sectors, 524288);
    let data = plan.entries[3];
    assert!(!data.active);
    assert_eq!(data.type_code, 0x83);
    assert_eq!(data.start_lba, 1574912);
    assert_eq!(data.size_sectors, 4194304 - 1574912);
}

#[test]
fn entries_do_not_overlap_and_stay_inside() {
    let cfg = LayoutConfig::standard();
    for scheme in [Scheme::SingleRoot, Scheme::DualRoot] {
        let plan = plan_layout(GIB2 + 12345 * 512, scheme, cfg).unwrap();
        let mut end = 0u64;
        for e in &plan.entries {
            assert!(e.start_lba as u64 >= end);
            end = e.start_lba as u64 + e.size_sectors as u64;
            assert!(end <= plan.total_sectors);
        }
        assert_eq!(end, plan.total_sectors);
    }
}

#[test]
fn sub_sector_remainder_is_dropped() {
    let cfg = LayoutConfig::standard();
    let exact = plan_layout(GIB2, Scheme::SingleRoot, cfg).unwrap();
    let ragged = plan_layout(GIB2 + 511, Scheme::SingleRoot, cfg).unwrap();
    assert_eq!(exact.total_sectors, ragged.total_sectors);
    assert_eq!(exact.entries.len(), ragged.entries.len());
    for (a, b) in exact.entries.iter().zip(ragged.entries.iter()) {
        assert_eq!(a.start_lba, b.start_lba);
        assert_eq!(a.size_sectors, b.size_sectors);
    }
}

#[test]
fn insufficient_space_is_rejected() {
    let cfg = LayoutConfig::standard();
    // 256 MiB cannot even hold the boot slot and its alignment gap.
    let r = plan_layout(256 * 1024 * 1024, Scheme::SingleRoot, cfg);
    assert_eq!(r.unwrap_err(), ImageError::InsufficientSpace);
    // The boundary itself is still too small: the last partition would be empty.
    let boundary = (2048 + 3 * 524288) * 512;
    let r = plan_layout(boundary, Scheme::DualRoot, cfg);
    assert_eq!(r.unwrap_err(), ImageError::InsufficientSpace);
    let r = plan_layout(boundary + 512, Scheme::DualRoot, cfg);
    assert!(r.is_ok());
}

#[test]
fn unaddressable_size_is_rejected() {
    let cfg = LayoutConfig::standard();
    let r = plan_layout((1u64 << 32) * 512 + 512, Scheme::SingleRoot, cfg);
    assert_eq!(r.unwrap_err(), ImageError::ImageTooLarge);
}

#[test]
fn small_custom_geometry() {
    let cfg = LayoutConfig { boot_start_lba: 1, slot_sectors: 2 };
    let plan = plan_layout(10 * 512, Scheme::SingleRoot, cfg).unwrap();
    assert_eq!(plan.entries.len(), 2);
    assert_eq!(plan.entries[0].start_lba, 1);
    assert_eq!(plan.entries[0].size_sectors, 2);
    assert_eq!(plan.entries[1].start_lba, 3);
    assert_eq!(plan.entries[1].size_sectors, 7);
}

#[test]
fn partition_table_sector_bytes() {
    let cfg = LayoutConfig::standard();
    let plan = plan_layout(GIB2, Scheme::SingleRoot, cfg).unwrap();
    let sector = encode_partition_table(&plan.entries);
    assert_eq!(sector.len(), 512);
    // Boot code area stays zero.
    assert!(sector[..446].iter().all(|b| *b == 0));
    // Entry 1: active FAT32 boot partition with sentinel geometry.
    assert_eq!(sector[446], 0x80);
    assert_eq!(&sector[447..450], &[0xFF, 0xFF, 0xFE]);
    assert_eq!(sector[450], 0x0C);
    assert_eq!(&sector[451..454], &[0xFF, 0xFF, 0xFE]);
    assert_eq!(&sector[454..458], &2048u32.to_le_bytes());
    assert_eq!(&sector[458..462], &524288u32.to_le_bytes());
    // Entry 2: inactive Linux root partition.
    assert_eq!(sector[462], 0x00);
    assert_eq!(sector[466], 0x83);
    assert_eq!(&sector[470..474], &526336u32.to_le_bytes());
    assert_eq!(&sector[474..478], &(4194304u32 - 526336).to_le_bytes());
    // Unused slots are all-zero records; the signature closes the sector.
    assert!(sector[478..510].iter().all(|b| *b == 0));
    assert_eq!(&sector[510..], &[0x55, 0xAA]);
}

#[test]
fn byte_ranges_follow_sectors() {
    let cfg = LayoutConfig::standard();
    let plan = plan_layout(GIB2, Scheme::DualRoot, cfg).unwrap();
    let boot = plan.entries[0];
    assert_eq!(boot.byte_start(), 2048 * 512);
    assert_eq!(boot.byte_len(), 256 * 1024 * 1024);
}

#[test]
fn root_slots_per_scheme() {
    let cfg = LayoutConfig::standard();
    let single = plan_layout(GIB2, Scheme::SingleRoot, cfg).unwrap();
    assert_eq!(single.root_slot_indices(), vec![1]);
    let dual = plan_layout(GIB2, Scheme::DualRoot, cfg).unwrap();
    assert_eq!(dual.root_slot_indices(), vec![1, 2]);
}
