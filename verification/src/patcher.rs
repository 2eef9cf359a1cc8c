//! Locating boot files inside the raw boot-region bytes and converting the
//! match offsets to absolute sector addresses for the first-stage
//! bootloader.

use vstd::prelude::*;

use crate::layout::SECTOR_SIZE;
use crate::ImageError;

verus! {

/// `needle` occurs in `hay` starting at byte `i`.
pub open spec fn matches_at(hay: Seq<u8>, needle: Seq<u8>, i: int) -> bool {
    &&& 0 <= i
    &&& i + needle.len() <= hay.len()
    &&& hay.subrange(i, i + needle.len() as int) == needle
}

/// `i` is the first occurrence of `needle` in `hay`.
pub open spec fn is_first_match(hay: Seq<u8>, needle: Seq<u8>, i: int) -> bool {
    &&& matches_at(hay, needle, i)
    &&& forall|j: int| 0 <= j < i ==> !matches_at(hay, needle, j)
}

/// Compare `needle` against `hay` at position `i`.
fn matches_here(hay: &[u8], needle: &[u8], i: usize) -> (r: bool)
    requires
        i + needle@.len() <= hay@.len(),
    ensures
        r == matches_at(hay@, needle@, i as int),
{
    let h: usize = hay.len();
    let n: usize = needle.len();
    let mut k: usize = 0;
    while k < n
        invariant
            k <= n,
            h == hay@.len(),
            n == needle@.len(),
            i + n <= h,
            forall|m: int| 0 <= m < k ==> hay@[i + m] == needle@[m],
        decreases n - k,
    {
        if hay[i + k] != needle[k] {
            assert(hay@.subrange(i as int, i + needle@.len()) != needle@) by {
                assert(hay@.subrange(i as int, i + needle@.len())[k as int] != needle@[k as int]);
            }
            return false;
        }
        k = k + 1;
    }
    assert(hay@.subrange(i as int, i + needle@.len()) =~= needle@);
    true
}

/// Find the first occurrence of `needle` in `hay`, if any: an exact
/// byte-sequence search where the first match wins.
pub fn find_first(hay: &[u8], needle: &[u8]) -> (r: Option<usize>)
    requires
        needle@.len() >= 1,
    ensures
        match r {
            Some(i) => is_first_match(hay@, needle@, i as int),
            None => forall|j: int| !matches_at(hay@, needle@, j),
        },
{
    let h: usize = hay.len();
    let n: usize = needle.len();
    if n > h {
        assert(forall|j: int| !matches_at(hay@, needle@, j));
        return None;
    }
    let mut i: usize = 0;
    while i <= h - n
        invariant
            n >= 1,
            n <= h,
            h == hay@.len(),
            n == needle@.len(),
            i <= h - n + 1,
            forall|j: int| 0 <= j < i ==> !matches_at(hay@, needle@, j),
        decreases h - n + 1 - i,
    {
        if matches_here(hay, needle, i) {
            return Some(i);
        }
        i = i + 1;
    }
    assert(forall|j: int| !matches_at(hay@, needle@, j)) by {
        assert(forall|j: int| j > h - n ==> !matches_at(hay@, needle@, j));
    }
    None
}

/// The absolute sector address of a match at byte `offset` of the searched
/// buffer: one sector past the offset's sector, counted from the region's
/// base, the reserved boot sector of the volume occupying the first sector.
pub open spec fn spec_match_lba(base_lba: u32, offset: int) -> int {
    base_lba + offset / (SECTOR_SIZE as int) + 1
}

/// Locate `content` in the re-read boot-region bytes and convert the first
/// match to an absolute sector address.
///
/// Fails when the content is empty, when it does not occur verbatim in the
/// region (there is no safe fallback address), or when the resulting
/// address does not fit a 32-bit sector number.
pub fn content_lba(region: &[u8], content: &[u8], base_lba: u32) -> (r: Result<u32, ImageError>)
    ensures
        content@.len() == 0 ==> r == Err::<u32, ImageError>(ImageError::EmptyContent),
        content@.len() >= 1 && (forall|j: int| !matches_at(region@, content@, j)) ==> r == Err::<
            u32,
            ImageError,
        >(ImageError::ContentNotFound),
        content@.len() >= 1 && (exists|j: int| matches_at(region@, content@, j)) ==> {
            exists|i: int|
                {
                    &&& #[trigger] is_first_match(region@, content@, i)
                    &&& if spec_match_lba(base_lba, i) <= u32::MAX {
                        r == Ok::<u32, ImageError>(spec_match_lba(base_lba, i) as u32)
                    } else {
                        r == Err::<u32, ImageError>(ImageError::LbaOutOfRange)
                    }
                }
        },
{
    if content.len() == 0 {
        return Err(ImageError::EmptyContent);
    }
    match find_first(region, content) {
        None => Err(ImageError::ContentNotFound),
        Some(offset) => {
            let sector: usize = offset / (SECTOR_SIZE as usize) + 1;
            let lba: u64 = base_lba as u64 + sector as u64;
            if lba > u32::MAX as u64 {
                Err(ImageError::LbaOutOfRange)
            } else {
                Ok(lba as u32)
            }
        },
    }
}

/// Patch plan for the master boot record: locate the kernel and the boot
/// parameters inside the re-read boot region, convert the first matches to
/// absolute sector addresses, and lay them out after the zero-padded
/// first-stage bootloader as the record's first 440 bytes.
///
/// Failures are fatal, in search order: empty or unlocatable kernel
/// content, then empty or unlocatable parameter content (an unpatched or
/// wrongly addressed record must never be produced silently), then an
/// oversized bootloader.
pub fn patch_boot_record(
    region: &[u8],
    kernel: &[u8],
    cmdline: &[u8],
    bootloader: &[u8],
    base_lba: u32,
) -> (r: Result<Vec<u8>, ImageError>)
    ensures
        ({
            let reg = region@;
            if kernel@.len() == 0 {
                r == Err::<Vec<u8>, ImageError>(ImageError::EmptyContent)
            } else if forall|j: int| !matches_at(reg, kernel@, j) {
                r == Err::<Vec<u8>, ImageError>(ImageError::ContentNotFound)
            } else {
                exists|ik: int|
                    {
                        &&& #[trigger] is_first_match(reg, kernel@, ik)
                        &&& if spec_match_lba(base_lba, ik) > u32::MAX {
                            r == Err::<Vec<u8>, ImageError>(ImageError::LbaOutOfRange)
                        } else if cmdline@.len() == 0 {
                            r == Err::<Vec<u8>, ImageError>(ImageError::EmptyContent)
                        } else if forall|j: int| !matches_at(reg, cmdline@, j) {
                            r == Err::<Vec<u8>, ImageError>(ImageError::ContentNotFound)
                        } else {
                            exists|ic: int|
                                {
                                    &&& #[trigger] is_first_match(reg, cmdline@, ic)
                                    &&& if spec_match_lba(base_lba, ic) > u32::MAX {
                                        r == Err::<Vec<u8>, ImageError>(ImageError::LbaOutOfRange)
                                    } else if bootloader@.len()
                                        > crate::mbr::BOOT_CODE_LEN {
                                        r == Err::<Vec<u8>, ImageError>(
                                            ImageError::BootloaderTooLarge,
                                        )
                                    } else {
                                        &&& r matches Ok(v)
                                        &&& r matches Ok(v) ==> v@
                                            =~= crate::mbr::spec_boot_prefix(
                                            bootloader@,
                                            spec_match_lba(base_lba, ik) as u32,
                                            spec_match_lba(base_lba, ic) as u32,
                                        )
                                    }
                                }
                        }
                    }
            }
        }),
{
    let kernel_lba = match content_lba(region, kernel, base_lba) {
        Ok(v) => v,
        Err(e) => {
            return Err(e);
        },
    };
    let cmdline_lba = match content_lba(region, cmdline, base_lba) {
        Ok(v) => v,
        Err(e) => {
            return Err(e);
        },
    };
    crate::mbr::encode_boot_prefix(bootloader, kernel_lba, cmdline_lba)
}

/// Law: a patched sector address leads back to the content it was computed
/// from. If the searched buffer reproduces the target's bytes starting one
/// sector after the region's base (the volume's reserved boot sector), and
/// the first match lies on a sector boundary, then reading the target
/// forward from the patched address yields exactly the located content.
///
/// A match that is not sector-aligned (content not placed on a sector
/// boundary by the filesystem) is excluded: for such a match the address
/// points at the enclosing sector's successor, not at the content itself.
pub proof fn lemma_patched_lba_reads_content(
    target: Seq<u8>,
    region: Seq<u8>,
    content: Seq<u8>,
    base_lba: u32,
    i: int,
)
    requires
        (base_lba + 1) * SECTOR_SIZE + region.len() <= target.len(),
        region == target.subrange(
            (base_lba + 1) * SECTOR_SIZE,
            (base_lba + 1) * SECTOR_SIZE + region.len(),
        ),
        is_first_match(region, content, i),
        i % (SECTOR_SIZE as int) == 0,
        spec_match_lba(base_lba, i) <= u32::MAX,
    ensures
        spec_match_lba(base_lba, i) * SECTOR_SIZE + content.len() <= target.len(),
        target.subrange(
            spec_match_lba(base_lba, i) * SECTOR_SIZE,
            spec_match_lba(base_lba, i) * SECTOR_SIZE + content.len(),
        ) == content,
{
    let s = SECTOR_SIZE as int;
    let base = (base_lba + 1) * s;
    assert(i / s * s == i) by {
        assert(i == s * (i / s) + i % s) by {
            vstd::arithmetic::div_mod::lemma_fundamental_div_mod(i, s);
        }
    }
    assert(spec_match_lba(base_lba, i) * s == base + i) by {
        assert((base_lba + i / s + 1) * s == (base_lba + 1) * s + (i / s) * s) by (nonlinear_arith);
    }
    assert forall|k: int| 0 <= k < content.len() implies #[trigger] content[k] == target[base + i
        + k] by {
        assert(region.subrange(i, i + content.len())[k] == content[k]);
        assert(region[i + k] == target[base + i + k]);
    }
    assert(target.subrange(base + i, base + i + content.len()) =~= content);
}

} // verus!
