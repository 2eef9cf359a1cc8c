use imggen::mbr::encode_boot_prefix;
use imggen::patcher::{content_lba, find_first, patch_boot_record};
use imggen::ImageError;

#[test]
fn find_first_takes_the_first_match() {
    let mut hay = vec![0u8; 2048];
    hay[1024..1027].copy_from_slice(&[9, 8, 7]);
    hay[512..515].copy_from_slice(&[9, 8, 7]);
    assert_eq!(find_first(&hay, &[9, 8, 7]), Some(512));
    assert_eq!(find_first(&hay, &[7, 8, 9]), None);
    assert_eq!(find_first(&[1, 2], &[1, 2, 3]), None);
}

#[test]
fn content_lba_formula() {
    let mut region = vec![0u8; 4096];
    region[1024..1028].copy_from_slice(&[5, 6, 7, 8]);
    // sector = floor(1024 / 512) + 1, absolute address = 2048 + sector.
    assert_eq!(content_lba(&region, &[5, 6, 7, 8], 2048).unwrap(), 2048 + 2 + 1);
    // An offset inside a sector still counts that sector.
    let mut region = vec![0u8; 4096];
    region[700..703].copy_from_slice(&[5, 6, 7]);
    assert_eq!(content_lba(&region, &[5, 6, 7], 2048).unwrap(), 2048 + 1 + 1);
}

#[test]
fn content_lba_failures() {
    let region = vec![0u8; 1024];
    assert_eq!(content_lba(&region, &[], 2048).unwrap_err(), ImageError::EmptyContent);
    assert_eq!(content_lba(&region, &[1, 2], 2048).unwrap_err(), ImageError::ContentNotFound);
    let mut region = vec![0u8; 1024];
    region[0..2].copy_from_slice(&[1, 2]);
    assert_eq!(
        content_lba(&region, &[1, 2], u32::MAX).unwrap_err(),
        ImageError::LbaOutOfRange
    );
}

#[test]
fn boot_prefix_layout() {
    let loader = [0xEB, 0x3C, 0x90];
    let prefix = encode_boot_prefix(&loader, 0x11223344, 0x55667788).unwrap();
    assert_eq!(prefix.len(), 440);
    assert_eq!(&prefix[..3], &loader);
    assert!(prefix[3..432].iter().all(|b| *b == 0));
    assert_eq!(&prefix[432..436], &0x11223344u32.to_le_bytes());
    assert_eq!(&prefix[436..440], &0x55667788u32.to_le_bytes());
}

#[test]
fn oversized_bootloader_is_rejected() {
    let loader = vec![0x90u8; 433];
    assert_eq!(
        encode_boot_prefix(&loader, 1, 2).unwrap_err(),
        ImageError::BootloaderTooLarge
    );
    let exact = vec![0x90u8; 432];
    let prefix = encode_boot_prefix(&exact, 1, 2).unwrap();
    assert_eq!(&prefix[..432], exact.as_slice());
}

#[test]
fn patch_boot_record_combines_both_addresses() {
    let mut region = vec![0u8; 8192];
    let kernel = [0xAA, 0xBB, 0xCC, 0xDD];
    let cmdline = b"console=ttyS0";
    region[512..516].copy_from_slice(&kernel);
    region[4096..4096 + cmdline.len()].copy_from_slice(cmdline);
    let loader = [0xFA, 0x31];
    let prefix = patch_boot_record(&region, &kernel, cmdline, &loader, 2048).unwrap();
    assert_eq!(prefix.len(), 440);
    assert_eq!(&prefix[..2], &loader);
    assert_eq!(&prefix[432..436], &(2048u32 + 1 + 1).to_le_bytes());
    assert_eq!(&prefix[436..440], &(2048u32 + 8 + 1).to_le_bytes());
}

#[test]
fn patch_boot_record_fails_without_a_match() {
    let region = vec![0u8; 2048];
    let r = patch_boot_record(&region, &[1, 2, 3], &[4, 5, 6], &[0x90], 2048);
    assert_eq!(r.unwrap_err(), ImageError::ContentNotFound);
}

#[test]
fn patched_address_reads_back_the_content() {
    // The target's boot region begins at sector 2048; the searched buffer
    // reproduces the region from one sector past its base (the volume's
    // reserved boot sector), and the content lies on a sector boundary.
    let base_lba: u32 = 2048;
    let content: Vec<u8> = (1u8..=16).collect();
    let mut region = vec![0u8; 4096];
    region[1024..1040].copy_from_slice(&content);
    let mut target = vec![0u8; (base_lba as usize + 1) * 512];
    target.extend_from_slice(&region);
    let lba = content_lba(&region, &content, base_lba).unwrap();
    let pos = lba as usize * 512;
    assert_eq!(&target[pos..pos + content.len()], content.as_slice());
}
