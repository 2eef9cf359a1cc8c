use imggen::boot::{boot_file_plan, build_boot_volume, manifest_get, BlobOrigin};
use imggen::config::Arch;
use imggen::patcher::patch_boot_record;

#[test]
fn boot_plan_for_x86_64() {
    let plan = boot_file_plan(Arch::X86_64);
    assert_eq!(plan.len(), 2);
    assert_eq!(plan[0].dest, "cmdline.txt");
    assert_eq!(plan[0].source, "cmdline.txt");
    assert_eq!(plan[0].origin, BlobOrigin::Kernel);
    assert_eq!(plan[1].dest, "kernel.img");
    assert_eq!(plan[1].source, "vmlinuz-x86_64");
    assert_eq!(plan[1].origin, BlobOrigin::Kernel);
}

#[test]
fn boot_plan_for_rpi_includes_firmware() {
    let plan = boot_file_plan(Arch::Rpi);
    assert_eq!(plan.len(), 19);
    assert_eq!(plan[1].source, "vmlinuz-rpi");
    let firmware: Vec<&str> = plan[2..].iter().map(|f| f.dest.as_str()).collect();
    assert_eq!(
        firmware,
        vec![
            "bootcode.bin",
            "fixup.dat",
            "fixup4.dat",
            "fixup4cd.dat",
            "fixup4db.dat",
            "fixup4x.dat",
            "fixup_cd.dat",
            "fixup_db.dat",
            "fixup_x.dat",
            "start.elf",
            "start4.elf",
            "start4cd.elf",
            "start4db.elf",
            "start4x.elf",
            "start_cd.elf",
            "start_db.elf",
            "start_x.elf",
        ]
    );
    for f in &plan[2..] {
        assert_eq!(f.dest, f.source);
        assert_eq!(f.origin, BlobOrigin::Firmware);
    }
}

fn sample_files() -> Vec<(String, Vec<u8>)> {
    let cmdline = b"console=ttyS0 root=/dev/sda2 rootwait".to_vec();
    let kernel: Vec<u8> = (0..5000u32).map(|i| (i * 7 + 13) as u8).collect();
    vec![
        ("cmdline.txt".to_string(), cmdline),
        ("kernel.img".to_string(), kernel),
    ]
}

#[test]
fn boot_volume_round_trip() {
    // What the builder writes is exactly recoverable by reading the same
    // byte range back: each file equals its manifest entry byte for byte.
    let files = sample_files();
    let volume = build_boot_volume(64 * 1024 * 1024, &files).unwrap();
    assert_eq!(volume.as_bytes().len(), 64 * 1024 * 1024);
    let cmdline_back = volume.read_file("cmdline.txt").unwrap();
    assert_eq!(cmdline_back, files[0].1);
    let kernel_back = volume.read_file("kernel.img").unwrap();
    assert_eq!(kernel_back, files[1].1);
}

#[test]
fn later_manifest_entry_wins() {
    // Writing the same name twice leaves exactly the later bytes: the
    // second write replaces the first, longer content included.
    let files = vec![
        ("cmdline.txt".to_string(), b"console=ttyS0 root=/dev/sda2 rootwait".to_vec()),
        ("cmdline.txt".to_string(), b"quiet".to_vec()),
    ];
    let volume = build_boot_volume(64 * 1024 * 1024, &files).unwrap();
    assert_eq!(volume.read_file("cmdline.txt").unwrap(), b"quiet".to_vec());
}

#[test]
fn boot_volume_content_is_locatable() {
    let files = sample_files();
    let volume = build_boot_volume(64 * 1024 * 1024, &files).unwrap();
    let kernel = manifest_get(&files, "kernel.img").unwrap();
    let cmdline = manifest_get(&files, "cmdline.txt").unwrap();
    // The searched buffer skips the volume's reserved boot sector, as the
    // pipeline reads it, so a patched address seeks back to the content.
    let region = &volume.as_bytes()[512..];
    let loader = [0xFA, 0x31, 0xC0];
    let prefix = patch_boot_record(region, kernel, cmdline, &loader, 2048).unwrap();
    assert_eq!(prefix.len(), 440);
    let kernel_lba = u32::from_le_bytes(prefix[432..436].try_into().unwrap());
    let cmdline_lba = u32::from_le_bytes(prefix[436..440].try_into().unwrap());
    for lba in [kernel_lba, cmdline_lba] {
        // The address lies inside the boot region, past its base, and
        // seeking there lands on a sector of the volume.
        assert!(lba > 2048);
        let volume_pos = ((lba - 2048) as usize) * 512;
        assert!(volume_pos < volume.as_bytes().len());
    }
    // Seeking to the kernel address inside the volume reads back the
    // start of the kernel content.
    let pos = ((kernel_lba - 2048) as usize) * 512;
    assert_eq!(&volume.as_bytes()[pos..pos + 16], &kernel[..16]);
}

#[test]
fn missing_file_fails_on_read_back() {
    let files = sample_files();
    let volume = build_boot_volume(64 * 1024 * 1024, &files).unwrap();
    assert!(volume.read_file("nosuchfile.bin").is_err());
}

#[test]
fn empty_region_is_refused() {
    // A FAT32 volume cannot be formatted into an empty byte range.
    let files = sample_files();
    assert!(build_boot_volume(0, &files).is_err());
}

#[test]
fn case_colliding_names_are_refused() {
    // The volume's name lookup ignores case, so two manifest entries whose
    // names differ only in case would be conflated; the build rejects them.
    let files = vec![
        ("kernel.img".to_string(), vec![1u8, 2]),
        ("KERNEL.IMG".to_string(), vec![3u8, 4]),
    ];
    assert!(build_boot_volume(64 * 1024 * 1024, &files).is_err());
}

#[test]
fn unusable_names_are_refused() {
    // Slashes would address a subdirectory, and dot-bounded names fall out
    // of the plain class the volume's lookup is exact on.
    for bad in ["boot/kernel.img", "kernel.", ".", "", "/kernel.img"] {
        let files = vec![(bad.to_string(), vec![1u8])];
        assert!(build_boot_volume(64 * 1024 * 1024, &files).is_err());
    }
}

#[test]
fn read_back_ignores_ascii_case() {
    // The volume's lookup is case-insensitive: a case-variant query finds
    // the stored file and returns its exact bytes.
    let files = sample_files();
    let volume = build_boot_volume(64 * 1024 * 1024, &files).unwrap();
    let kernel_back = volume.read_file("KERNEL.IMG").unwrap();
    assert_eq!(kernel_back, files[1].1);
}

#[test]
fn read_back_rejects_unusable_names() {
    let files = sample_files();
    let volume = build_boot_volume(64 * 1024 * 1024, &files).unwrap();
    assert!(volume.read_file("a/kernel.img").is_err());
    assert!(volume.read_file("").is_err());
}

#[test]
fn manifest_lookup_finds_first_entry() {
    let files = vec![
        ("a".to_string(), vec![1u8]),
        ("b".to_string(), vec![2u8]),
        ("a".to_string(), vec![3u8]),
    ];
    assert_eq!(manifest_get(&files, "a").unwrap(), &vec![1u8]);
    assert_eq!(manifest_get(&files, "b").unwrap(), &vec![2u8]);
    assert!(manifest_get(&files, "c").is_none());
}
