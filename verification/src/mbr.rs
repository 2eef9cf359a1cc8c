//! Byte-exact encoding of the master boot record: the partition table
//! sector written when a target is partitioned, and the boot-code prefix
//! holding the first-stage bootloader and the two patched sector addresses.

use vstd::prelude::*;

use vstd::bytes::spec_u32_to_le_bytes;
use vstd::bytes::u32_to_le_bytes;

use crate::layout::PartitionEntry;
use crate::ImageError;

verus! {

/// Number of bytes reserved for boot code before the bootloader parameters.
pub const BOOT_CODE_LEN: usize = 432;

/// Number of bytes of the patched prefix: boot code plus two little-endian
/// 32-bit sector addresses.
pub const BOOT_PREFIX_LEN: usize = 440;

/// A sequence of `n` zero bytes.
pub open spec fn spec_zeros(n: int) -> Seq<u8> {
    Seq::new(n as nat, |i: int| 0u8)
}

/// The cylinder-head-sector sentinel written in place of a geometry,
/// forcing readers to use the sector addresses.
pub open spec fn spec_chs_sentinel() -> Seq<u8> {
    seq![0xFFu8, 0xFFu8, 0xFEu8]
}

/// The status byte of a table row: active (bootable) or inactive.
pub open spec fn spec_status_byte(active: bool) -> u8 {
    if active {
        0x80u8
    } else {
        0x00u8
    }
}

/// The 16 bytes of one partition table row.
pub open spec fn spec_entry_bytes(e: PartitionEntry) -> Seq<u8> {
    seq![spec_status_byte(e.active)] + spec_chs_sentinel() + seq![e.type_code]
        + spec_chs_sentinel() + spec_u32_to_le_bytes(e.start_lba) + spec_u32_to_le_bytes(
        e.size_sectors,
    )
}

/// The 16 bytes of table slot `i`: an encoded entry, or an all-zero row
/// for an unused slot.
pub open spec fn spec_slot_bytes(entries: Seq<PartitionEntry>, i: int) -> Seq<u8> {
    if 0 <= i < entries.len() {
        spec_entry_bytes(entries[i])
    } else {
        spec_zeros(16)
    }
}

/// The full 512-byte partition table sector: zeroed boot code, four table
/// slots, and the boot signature.
pub open spec fn spec_table_sector(entries: Seq<PartitionEntry>) -> Seq<u8> {
    spec_zeros(446) + spec_slot_bytes(entries, 0) + spec_slot_bytes(entries, 1) + spec_slot_bytes(
        entries,
        2,
    ) + spec_slot_bytes(entries, 3) + seq![0x55u8, 0xAAu8]
}

/// The 440-byte prefix that patching writes over the start of the master
/// boot record: the bootloader zero-padded to 432 bytes, then the kernel
/// and command-line sector addresses, little endian.
pub open spec fn spec_boot_prefix(bootloader: Seq<u8>, kernel_lba: u32, cmdline_lba: u32) -> Seq<
    u8,
>
    recommends
        bootloader.len() <= BOOT_CODE_LEN,
{
    bootloader + spec_zeros(BOOT_CODE_LEN - bootloader.len()) + spec_u32_to_le_bytes(kernel_lba)
        + spec_u32_to_le_bytes(cmdline_lba)
}

/// Append the little-endian bytes of `x`.
fn push_u32_le(out: &mut Vec<u8>, x: u32)
    ensures
        final(out)@ == old(out)@ + spec_u32_to_le_bytes(x),
{
    proof {
        vstd::bytes::lemma_auto_spec_u32_to_from_le_bytes();
    }
    let mut bytes = u32_to_le_bytes(x);
    out.append(&mut bytes);
}

/// Append the three-byte geometry sentinel.
fn push_chs_sentinel(out: &mut Vec<u8>)
    ensures
        final(out)@ =~= old(out)@ + spec_chs_sentinel(),
{
    out.push(0xFF);
    out.push(0xFF);
    out.push(0xFE);
}

/// Append `n` zero bytes.
fn push_zeros(out: &mut Vec<u8>, n: usize)
    ensures
        final(out)@ =~= old(out)@ + spec_zeros(n as int),
{
    let mut i: usize = 0;
    while i < n
        invariant
            i <= n,
            out@ =~= old(out)@ + spec_zeros(i as int),
        decreases n - i,
    {
        out.push(0);
        i = i + 1;
    }
}

/// Append the 16 bytes of table slot `i`.
fn push_slot(out: &mut Vec<u8>, entries: &Vec<PartitionEntry>, i: usize)
    ensures
        final(out)@ =~= old(out)@ + spec_slot_bytes(entries@, i as int),
{
    if i < entries.len() {
        let e = entries[i];
        out.push(if e.active {
            0x80
        } else {
            0x00
        });
        push_chs_sentinel(out);
        out.push(e.type_code);
        push_chs_sentinel(out);
        push_u32_le(out, e.start_lba);
        push_u32_le(out, e.size_sectors);
        assert(out@ =~= old(out)@ + spec_entry_bytes(entries@[i as int]));
    } else {
        push_zeros(out, 16);
    }
}

/// Encode the 512-byte partition table sector for a plan's entries: zeroed
/// boot code, one 16-byte row per entry (unused slots all zero, forcing at
/// most four partitions), and the `0x55 0xAA` signature.
pub fn encode_partition_table(entries: &Vec<PartitionEntry>) -> (r: Vec<u8>)
    requires
        entries@.len() <= 4,
    ensures
        r@.len() == 512,
        r@ =~= spec_table_sector(entries@),
{
    let mut out: Vec<u8> = Vec::new();
    push_zeros(&mut out, 446);
    push_slot(&mut out, entries, 0);
    push_slot(&mut out, entries, 1);
    push_slot(&mut out, entries, 2);
    push_slot(&mut out, entries, 3);
    out.push(0x55);
    out.push(0xAA);
    proof {
        vstd::bytes::lemma_auto_spec_u32_to_from_le_bytes();
        assert(out@ =~= spec_table_sector(entries@));
    }
    out
}

/// Build the 440-byte boot-code prefix of the master boot record: the
/// first-stage bootloader, zero-padded to 432 bytes, followed by the kernel
/// and command-line sector addresses as little-endian 32-bit values.
/// A bootloader longer than 432 bytes is rejected.
pub fn encode_boot_prefix(bootloader: &[u8], kernel_lba: u32, cmdline_lba: u32) -> (r: Result<
    Vec<u8>,
    ImageError,
>)
    ensures
        bootloader@.len() > BOOT_CODE_LEN ==> r == Err::<Vec<u8>, ImageError>(
            ImageError::BootloaderTooLarge,
        ),
        bootloader@.len() <= BOOT_CODE_LEN ==> {
            &&& r matches Ok(v)
            &&& r matches Ok(v) ==> {
                &&& v@.len() == BOOT_PREFIX_LEN
                &&& v@ =~= spec_boot_prefix(bootloader@, kernel_lba, cmdline_lba)
            }
        },
{
    if bootloader.len() > BOOT_CODE_LEN {
        return Err(ImageError::BootloaderTooLarge);
    }
    let mut out: Vec<u8> = Vec::new();
    let mut i: usize = 0;
    let n: usize = bootloader.len();
    while i < n
        invariant
            i <= n,
            n == bootloader@.len(),
            out@ =~= bootloader@.subrange(0, i as int),
        decreases n - i,
    {
        out.push(bootloader[i]);
        i = i + 1;
    }
    assert(out@ =~= bootloader@);
    push_zeros(&mut out, BOOT_CODE_LEN - n);
    push_u32_le(&mut out, kernel_lba);
    push_u32_le(&mut out, cmdline_lba);
    proof {
        vstd::bytes::lemma_auto_spec_u32_to_from_le_bytes();
        assert(out@ =~= spec_boot_prefix(bootloader@, kernel_lba, cmdline_lba));
    }
    Ok(out)
}

} // verus!
