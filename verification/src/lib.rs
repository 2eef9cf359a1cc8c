//! Generation of bootable MBR disk images: partition layout planning,
//! FAT32 boot-volume construction, bootloader patching with absolute
//! sector addresses, and root-filesystem tree assembly.

use vstd::prelude::*;

pub mod boot;
pub mod config;
pub mod layout;
pub mod mbr;
pub mod patcher;
pub mod rootfs;

verus! {

/// Errors of the image assembly engine. Configuration errors are detected
/// before any destructive output is produced.
#[derive(Clone, Copy, Debug, PartialEq, Eq, Structural)]
pub enum ImageError {
    /// The architecture tag is not one of the supported set.
    InvalidArchitecture,
    /// The target is a plain file and no image size was supplied.
    MissingSize,
    /// The designated init package is absent from the install set.
    InitNotFound,
    /// The target is too small to hold the fixed-size regions.
    InsufficientSpace,
    /// The target has more sectors than a partition entry can address.
    ImageTooLarge,
    /// The first-stage bootloader exceeds the space before the MBR tables.
    BootloaderTooLarge,
    /// A manifest file's content is empty, so it cannot be located.
    EmptyContent,
    /// A manifest file's content was not found verbatim in the boot region.
    ContentNotFound,
    /// The computed logical block address does not fit in 32 bits.
    LbaOutOfRange,
    /// The boot volume could not be formatted or populated.
    BootVolume,
    /// A source-control package spec could not be parsed.
    InvalidPackageSpec,
}

impl ImageError {
    /// The human-readable description of the error, as the build reports
    /// it before exiting.
    pub fn message(&self) -> (r: String)
        ensures
            *self == ImageError::InvalidArchitecture ==> r@ == "invalid architecture (supported: x86_64 rpi)"@,
            *self == ImageError::MissingSize ==> r@ == "files require --size to be specified"@,
            *self == ImageError::InitNotFound ==> r@ == "init must be listed in crates to install"@,
            *self == ImageError::InsufficientSpace ==> r@ == "target too small for the fixed partitions"@,
            *self == ImageError::ImageTooLarge ==> r@ == "target too large for 32-bit sector addresses"@,
            *self == ImageError::BootloaderTooLarge ==> r@ == "bootloader exceeds 432 bytes"@,
            *self == ImageError::EmptyContent ==> r@ == "boot file content is empty"@,
            *self == ImageError::ContentNotFound ==> r@ == "boot file content not found on the boot partition"@,
            *self == ImageError::LbaOutOfRange ==> r@ == "computed sector address does not fit in 32 bits"@,
            *self == ImageError::BootVolume ==> r@ == "boot filesystem could not be created"@,
            *self == ImageError::InvalidPackageSpec ==> r@ == "invalid git crate specification"@,
    {
        match self {
            ImageError::InvalidArchitecture => "invalid architecture (supported: x86_64 rpi)".to_owned(),
            ImageError::MissingSize => "files require --size to be specified".to_owned(),
            ImageError::InitNotFound => "init must be listed in crates to install".to_owned(),
            ImageError::InsufficientSpace => "target too small for the fixed partitions".to_owned(),
            ImageError::ImageTooLarge => "target too large for 32-bit sector addresses".to_owned(),
            ImageError::BootloaderTooLarge => "bootloader exceeds 432 bytes".to_owned(),
            ImageError::EmptyContent => "boot file content is empty".to_owned(),
            ImageError::ContentNotFound => "boot file content not found on the boot partition".to_owned(),
            ImageError::LbaOutOfRange => "computed sector address does not fit in 32 bits".to_owned(),
            ImageError::BootVolume => "boot filesystem could not be created".to_owned(),
            ImageError::InvalidPackageSpec => "invalid git crate specification".to_owned(),
        }
    }
}

} // verus!
