//! Partition layout planning: given a target size and a layout scheme,
//! produce the ordered master-boot-record partition entries and the sector
//! ranges of each region.

use vstd::prelude::*;

use crate::ImageError;

verus! {

/// Bytes per sector. All on-disk addresses are in units of this size.
pub const SECTOR_SIZE: u64 = 512;

/// Partition type code of a FAT32 volume addressed by logical block address.
pub const TYPE_FAT32_LBA: u8 = 0x0C;

/// Partition type code of a Linux filesystem partition.
pub const TYPE_LINUX: u8 = 0x83;

/// Layout scheme: one root partition taking the remaining space, or a
/// redundant pair of fixed-size root slots with a data partition taking
/// the remaining space.
#[derive(Clone, Copy, Debug, PartialEq, Eq, Structural)]
pub enum Scheme {
    SingleRoot,
    DualRoot,
}

/// The fixed sizing constants of a layout, passed explicitly so that
/// layouts are testable with arbitrary slot sizes.
#[derive(Clone, Copy, Debug, PartialEq, Eq, Structural)]
pub struct LayoutConfig {
    /// First sector of the boot partition (alignment gap before it).
    pub boot_start_lba: u32,
    /// Size in sectors of each fixed-size slot (boot, root slots).
    pub slot_sectors: u32,
}

impl LayoutConfig {
    /// A config is well formed when the boot partition leaves room for the
    /// master boot record and the fixed slots are not empty.
    pub open spec fn wf(self) -> bool {
        &&& self.boot_start_lba >= 1
        &&& self.slot_sectors >= 1
    }

    /// The standard geometry: boot partition at sector 2048 (1 MiB
    /// alignment), 256 MiB fixed slots.
    pub fn standard() -> (r: LayoutConfig)
        ensures
            r.boot_start_lba == 2048,
            r.slot_sectors == 524288,
            r.wf(),
    {
        LayoutConfig { boot_start_lba: 2048, slot_sectors: 524288 }
    }
}

/// One row of the master-boot-record partition table. Addresses are in
/// sectors, so every partition is sector-aligned by construction.
#[derive(Clone, Copy, Debug, PartialEq, Eq, Structural)]
pub struct PartitionEntry {
    pub active: bool,
    pub type_code: u8,
    pub start_lba: u32,
    pub size_sectors: u32,
}

impl PartitionEntry {
    /// First byte of the partition on the target.
    pub fn byte_start(&self) -> (r: u64)
        ensures
            r == self.start_lba as u64 * SECTOR_SIZE,
    {
        self.start_lba as u64 * SECTOR_SIZE
    }

    /// Length of the partition in bytes.
    pub fn byte_len(&self) -> (r: u64)
        ensures
            r == self.size_sectors as u64 * SECTOR_SIZE,
    {
        self.size_sectors as u64 * SECTOR_SIZE
    }
}

/// Number of fixed-size slots that precede the final, remainder-absorbing
/// partition.
pub open spec fn spec_fixed_slots(scheme: Scheme) -> int {
    match scheme {
        Scheme::SingleRoot => 1,
        Scheme::DualRoot => 3,
    }
}

/// First sector after the fixed-size slots.
pub open spec fn spec_fixed_end(scheme: Scheme, cfg: LayoutConfig) -> int {
    cfg.boot_start_lba + spec_fixed_slots(scheme) * cfg.slot_sectors
}

/// A partition entry built from mathematical sector values.
pub open spec fn spec_entry(active: bool, type_code: u8, start: int, size: int) -> PartitionEntry {
    PartitionEntry { active, type_code, start_lba: start as u32, size_sectors: size as u32 }
}

/// The ordered partition entries of a layout over `total_sectors` sectors.
/// The last entry absorbs every sector after the fixed slots.
pub open spec fn spec_layout_entries(
    total_sectors: int,
    scheme: Scheme,
    cfg: LayoutConfig,
) -> Seq<PartitionEntry> {
    let b = cfg.boot_start_lba as int;
    let s = cfg.slot_sectors as int;
    match scheme {
        Scheme::SingleRoot => seq![
            spec_entry(true, TYPE_FAT32_LBA, b, s),
            spec_entry(false, TYPE_LINUX, b + s, total_sectors - (b + s)),
        ],
        Scheme::DualRoot => seq![
            spec_entry(true, TYPE_FAT32_LBA, b, s),
            spec_entry(false, TYPE_LINUX, b + s, s),
            spec_entry(false, TYPE_LINUX, b + 2 * s, s),
            spec_entry(false, TYPE_LINUX, b + 3 * s, total_sectors - (b + 3 * s)),
        ],
    }
}

/// A planned layout: the partition entries in on-disk order, together with
/// the sector count they were planned for.
#[derive(Debug)]
pub struct DiskPlan {
    pub scheme: Scheme,
    pub total_sectors: u64,
    pub entries: Vec<PartitionEntry>,
}

impl DiskPlan {
    /// The positions of the root-filesystem slots among the entries: the
    /// partition after the boot partition, and in the dual-root scheme the
    /// redundant slot after it as well. The build runs once per slot.
    pub fn root_slot_indices(&self) -> (r: Vec<usize>)
        ensures
            self.scheme == Scheme::SingleRoot ==> r@ =~= seq![1usize],
            self.scheme == Scheme::DualRoot ==> r@ =~= seq![1usize, 2usize],
    {
        let mut slots: Vec<usize> = Vec::new();
        slots.push(1);
        if let Scheme::DualRoot = self.scheme {
            slots.push(2);
        }
        slots
    }

    /// The geometric invariant of a plan: every entry lies within the
    /// target, consecutive entries are adjacent, and the last entry ends
    /// exactly at the last whole sector. Together these give the union
    /// property: the entries partition the sectors from the first entry's
    /// start up to `total_sectors`, and all that is unused is the gap
    /// before the first entry and the sub-sector remainder at the end.
    pub open spec fn wf(self) -> bool {
        &&& self.total_sectors <= u32::MAX
        &&& self.entries@.len() >= 1
        &&& forall|i: int|
            0 <= i < self.entries@.len() ==> (#[trigger] self.entries@[i]).start_lba
                + self.entries@[i].size_sectors <= self.total_sectors
        &&& forall|i: int|
            0 <= i < self.entries@.len() - 1 ==> (#[trigger] self.entries@[i + 1]).start_lba
                == self.entries@[i].start_lba + self.entries@[i].size_sectors
        &&& self.entries@.last().start_lba + self.entries@.last().size_sectors
            == self.total_sectors
    }
}

/// Plan the partition layout for a target of `total_bytes` bytes.
///
/// Any sub-sector remainder of the size is dropped: it belongs to no
/// partition. The call fails when the sector count cannot be addressed by
/// a 32-bit entry, or when the target does not exceed the fixed-size
/// regions, and succeeds otherwise.
pub fn plan_layout(total_bytes: u64, scheme: Scheme, cfg: LayoutConfig) -> (r: Result<
    DiskPlan,
    ImageError,
>)
    requires
        cfg.wf(),
    ensures
        ({
            let ts = total_bytes as int / SECTOR_SIZE as int;
            let fe = spec_fixed_end(scheme, cfg);
            if ts > u32::MAX {
                r == Err::<DiskPlan, ImageError>(ImageError::ImageTooLarge)
            } else if ts <= fe {
                r == Err::<DiskPlan, ImageError>(ImageError::InsufficientSpace)
            } else {
                &&& r matches Ok(p)
                &&& r matches Ok(p) ==> {
                    &&& p.scheme == scheme
                    &&& p.total_sectors == ts
                    &&& p.entries@ =~= spec_layout_entries(ts, scheme, cfg)
                    &&& p.wf()
                }
            }
        }),
{
    let total_sectors: u64 = total_bytes / SECTOR_SIZE;
    if total_sectors > u32::MAX as u64 {
        return Err(ImageError::ImageTooLarge);
    }
    let b: u64 = cfg.boot_start_lba as u64;
    let s: u64 = cfg.slot_sectors as u64;
    let slots: u64 = match scheme {
        Scheme::SingleRoot => 1,
        Scheme::DualRoot => 3,
    };
    let fixed_end: u64 = b + slots * s;
    if total_sectors <= fixed_end {
        return Err(ImageError::InsufficientSpace);
    }
    let mut entries: Vec<PartitionEntry> = Vec::new();
    entries.push(
        PartitionEntry {
            active: true,
            type_code: TYPE_FAT32_LBA,
            start_lba: cfg.boot_start_lba,
            size_sectors: cfg.slot_sectors,
        },
    );
    match scheme {
        Scheme::SingleRoot => {
            entries.push(
                PartitionEntry {
                    active: false,
                    type_code: TYPE_LINUX,
                    start_lba: (b + s) as u32,
                    size_sectors: (total_sectors - fixed_end) as u32,
                },
            );
        },
        Scheme::DualRoot => {
            entries.push(
                PartitionEntry {
                    active: false,
                    type_code: TYPE_LINUX,
                    start_lba: (b + s) as u32,
                    size_sectors: cfg.slot_sectors,
                },
            );
            entries.push(
                PartitionEntry {
                    active: false,
                    type_code: TYPE_LINUX,
                    start_lba: (b + 2 * s) as u32,
                    size_sectors: cfg.slot_sectors,
                },
            );
            entries.push(
                PartitionEntry {
                    active: false,
                    type_code: TYPE_LINUX,
                    start_lba: (b + 3 * s) as u32,
                    size_sectors: (total_sectors - fixed_end) as u32,
                },
            );
        },
    }
    Ok(DiskPlan { scheme, total_sectors, entries })
}

/// Entries earlier in a well-formed plan end no later than later ones begin.
proof fn lemma_entries_ordered(p: DiskPlan, i: int, j: int)
    requires
        p.wf(),
        0 <= i < j < p.entries@.len(),
    ensures
        p.entries@[i].start_lba + p.entries@[i].size_sectors <= p.entries@[j].start_lba,
    decreases j - i,
{
    if j == i + 1 {
        assert(p.entries@[j].start_lba == p.entries@[i].start_lba + p.entries@[i].size_sectors);
    } else {
        lemma_entries_ordered(p, i, j - 1);
        assert(p.entries@[(j - 1) + 1].start_lba == p.entries@[j - 1].start_lba + p.entries@[j
            - 1].size_sectors);
    }
}

/// Every sector from entry `k`'s start up to the end of the target lies in
/// some entry at or after `k`.
///
/// With `k == 0` this is the union law: together with
/// `lemma_plan_partitions_target` it says the entries cover exactly the
/// sectors from the first entry's start to the last whole sector, each
/// sector in exactly one entry; unused are only the gap before the first
/// entry and the dropped sub-sector remainder.
pub proof fn lemma_sector_covered(p: DiskPlan, s: int, k: int)
    requires
        p.wf(),
        0 <= k < p.entries@.len(),
        p.entries@[k].start_lba <= s < p.total_sectors,
    ensures
        exists|i: int|
            0 <= i < p.entries@.len() && (#[trigger] p.entries@[i]).start_lba <= s
                < p.entries@[i].start_lba + p.entries@[i].size_sectors,
    decreases p.entries@.len() - k,
{
    if s < p.entries@[k].start_lba + p.entries@[k].size_sectors {
        assert(p.entries@[k].start_lba <= s
            < p.entries@[k].start_lba + p.entries@[k].size_sectors);
    } else {
        assert(k < p.entries@.len() - 1) by {
            assert(p.entries@.last() == p.entries@[p.entries@.len() - 1]);
        }
        assert(p.entries@[k + 1].start_lba
            == p.entries@[k].start_lba + p.entries@[k].size_sectors);
        lemma_sector_covered(p, s, k + 1);
    }
}

/// Law: the entries of a well-formed plan are pairwise non-overlapping and
/// lie entirely within the target's whole sectors; partitions are
/// sector-aligned by construction, their addresses being held in sectors.
/// `lemma_sector_covered` adds the union half of the law.
pub proof fn lemma_plan_partitions_target(p: DiskPlan)
    requires
        p.wf(),
    ensures
        forall|i: int, j: int|
            0 <= i < j < p.entries@.len() ==> (#[trigger] p.entries@[i]).start_lba
                + p.entries@[i].size_sectors <= (#[trigger] p.entries@[j]).start_lba,
        forall|i: int|
            0 <= i < p.entries@.len() ==> (#[trigger] p.entries@[i]).start_lba
                + p.entries@[i].size_sectors <= p.total_sectors,
{
    assert forall|i: int, j: int|
        0 <= i < j < p.entries@.len() implies (#[trigger] p.entries@[i]).start_lba
        + p.entries@[i].size_sectors <= (#[trigger] p.entries@[j]).start_lba by {
        lemma_entries_ordered(p, i, j);
    }
}

/// Law: the final partition absorbs the remaining space. In the
/// single-root layout the root partition's size is the sector count minus
/// its start; in the dual-root layout the boot and both root slots are each
/// exactly one fixed slot and the data partition's size is the sector count
/// minus its start.
pub proof fn lemma_remainder_assignment(total_sectors: int, scheme: Scheme, cfg: LayoutConfig)
    requires
        cfg.wf(),
        spec_fixed_end(scheme, cfg) < total_sectors <= u32::MAX,
    ensures
        ({
            let es = spec_layout_entries(total_sectors, scheme, cfg);
            match scheme {
                Scheme::SingleRoot => {
                    &&& es.len() == 2
                    &&& es[0].size_sectors == cfg.slot_sectors
                    &&& es[1].size_sectors == total_sectors - es[1].start_lba
                },
                Scheme::DualRoot => {
                    &&& es.len() == 4
                    &&& es[0].size_sectors == cfg.slot_sectors
                    &&& es[1].size_sectors == cfg.slot_sectors
                    &&& es[2].size_sectors == cfg.slot_sectors
                    &&& es[3].size_sectors == total_sectors - es[3].start_lba
                },
            }
        }),
{
    let b = cfg.boot_start_lba as int;
    let s = cfg.slot_sectors as int;
    match scheme {
        Scheme::SingleRoot => {
            assert((b + s) as u32 == b + s);
            assert((total_sectors - (b + s)) as u32 == total_sectors - (b + s));
        },
        Scheme::DualRoot => {
            assert((b + s) as u32 == b + s);
            assert((b + 2 * s) as u32 == b + 2 * s);
            assert((b + 3 * s) as u32 == b + 3 * s);
            assert((total_sectors - (b + 3 * s)) as u32 == total_sectors - (b + 3 * s));
        },
    }
}

} // verus!
