//! Boot volume construction: the plan of files fetched onto the FAT32 boot
//! volume, in-memory formatting and population of the volume, and lookups
//! in the manifest that records the exact bytes written for the patcher.
//!
//! The volume itself is modelled by named results of the filesystem
//! library's calls: `spec_fat_files` gives the file map of the bytes, and
//! `spec_fat_volume` names the well-formed volumes those calls stay
//! within. The library is built without its clock feature, so every call's
//! outcome is a function of its arguments alone. File names are kept to a
//! plain class on which the library's name matching is exactly
//! case-insensitive equality.

use vstd::prelude::*;

use std::io::Read;
use std::io::Write;

use crate::config::str_eq;
use crate::config::Arch;
use crate::mbr::spec_zeros;
use crate::ImageError;

verus! {

/// Where a boot file's bytes are fetched from: the kernel repository or
/// the firmware repository.
#[derive(Clone, Copy, Debug, PartialEq, Eq, Structural)]
pub enum BlobOrigin {
    Kernel,
    Firmware,
}

/// One file of the boot volume: its name on the volume, the name of the
/// blob it is fetched from, and the repository the blob lives in.
pub struct FetchItem {
    pub dest: String,
    pub source: String,
    pub origin: BlobOrigin,
}

/// The names of the firmware blobs copied verbatim onto the boot volume of
/// a Raspberry Pi image.
pub open spec fn spec_firmware_names() -> Seq<Seq<char>> {
    seq![
        "bootcode.bin"@,
        "fixup.dat"@,
        "fixup4.dat"@,
        "fixup4cd.dat"@,
        "fixup4db.dat"@,
        "fixup4x.dat"@,
        "fixup_cd.dat"@,
        "fixup_db.dat"@,
        "fixup_x.dat"@,
        "start.elf"@,
        "start4.elf"@,
        "start4cd.elf"@,
        "start4db.elf"@,
        "start4x.elf"@,
        "start_cd.elf"@,
        "start_db.elf"@,
        "start_x.elf"@,
    ]
}

/// The kernel blob fetched for an architecture.
pub open spec fn spec_kernel_blob(arch: Arch) -> Seq<char> {
    match arch {
        Arch::X86_64 => "vmlinuz-x86_64"@,
        Arch::Rpi => "vmlinuz-rpi"@,
    }
}

/// The firmware blob names as strings.
fn firmware_names() -> (r: Vec<String>)
    ensures
        r.deep_view() =~= spec_firmware_names(),
{
    let mut names: Vec<String> = Vec::new();
    names.push("bootcode.bin".to_owned());
    names.push("fixup.dat".to_owned());
    names.push("fixup4.dat".to_owned());
    names.push("fixup4cd.dat".to_owned());
    names.push("fixup4db.dat".to_owned());
    names.push("fixup4x.dat".to_owned());
    names.push("fixup_cd.dat".to_owned());
    names.push("fixup_db.dat".to_owned());
    names.push("fixup_x.dat".to_owned());
    names.push("start.elf".to_owned());
    names.push("start4.elf".to_owned());
    names.push("start4cd.elf".to_owned());
    names.push("start4db.elf".to_owned());
    names.push("start4x.elf".to_owned());
    names.push("start_cd.elf".to_owned());
    names.push("start_db.elf".to_owned());
    names.push("start_x.elf".to_owned());
    names
}

/// The ordered plan of files placed on the boot volume for an
/// architecture: the boot parameters and the kernel image, and for the
/// Raspberry Pi the fixed set of firmware blobs, copied in unmodified.
pub fn boot_file_plan(arch: Arch) -> (r: Vec<FetchItem>)
    ensures
        r@.len() == if arch == Arch::Rpi {
            19int
        } else {
            2int
        },
        r@[0].dest@ == "cmdline.txt"@ && r@[0].source@ == "cmdline.txt"@ && r@[0].origin
            == BlobOrigin::Kernel,
        r@[1].dest@ == "kernel.img"@ && r@[1].source@ == spec_kernel_blob(arch) && r@[1].origin
            == BlobOrigin::Kernel,
        forall|k: int|
            2 <= k < r@.len() ==> (#[trigger] r@[k]).dest@ == spec_firmware_names()[k - 2]
                && r@[k].source@ == spec_firmware_names()[k - 2] && r@[k].origin
                == BlobOrigin::Firmware,
{
    let mut plan: Vec<FetchItem> = Vec::new();
    plan.push(
        FetchItem {
            dest: "cmdline.txt".to_owned(),
            source: "cmdline.txt".to_owned(),
            origin: BlobOrigin::Kernel,
        },
    );
    let kernel_source: String = match arch {
        Arch::X86_64 => "vmlinuz-x86_64".to_owned(),
        Arch::Rpi => "vmlinuz-rpi".to_owned(),
    };
    plan.push(
        FetchItem { dest: "kernel.img".to_owned(), source: kernel_source, origin: BlobOrigin::Kernel },
    );
    if let Arch::Rpi = arch {
        let names = firmware_names();
        let mut k: usize = 0;
        while k < names.len()
            invariant
                k <= names@.len(),
                names.deep_view() =~= spec_firmware_names(),
                plan@.len() == k + 2,
                plan@[0].dest@ == "cmdline.txt"@ && plan@[0].source@ == "cmdline.txt"@
                    && plan@[0].origin == BlobOrigin::Kernel,
                plan@[1].dest@ == "kernel.img"@ && plan@[1].source@ == spec_kernel_blob(Arch::Rpi)
                    && plan@[1].origin == BlobOrigin::Kernel,
                forall|m: int|
                    2 <= m < plan@.len() ==> (#[trigger] plan@[m]).dest@ == spec_firmware_names()[m
                        - 2] && plan@[m].source@ == spec_firmware_names()[m - 2] && plan@[m].origin
                        == BlobOrigin::Firmware,
            decreases names@.len() - k,
        {
            let name = &names[k];
            plan.push(
                FetchItem { dest: name.clone(), source: name.clone(), origin: BlobOrigin::Firmware },
            );
            k = k + 1;
        }
    }
    plan
}

/// The ASCII-folded value of a character: upper-case ASCII letters map to
/// their lower-case counterparts, every other character to itself.
pub open spec fn spec_fold_char(c: char) -> int {
    if 65 <= c as u32 && c as u32 <= 90 {
        c as u32 + 32
    } else {
        c as u32 as int
    }
}

/// Two names are equal up to ASCII case.
pub open spec fn spec_caseless_eq(a: Seq<char>, b: Seq<char>) -> bool {
    &&& a.len() == b.len()
    &&& forall|i: int| 0 <= i < a.len() ==> spec_fold_char(a[i]) == spec_fold_char(b[i])
}

/// A character a plain volume file name may hold: an ASCII letter, a
/// digit, a dot, an underscore or a minus.
pub open spec fn spec_plain_char(c: char) -> bool {
    ||| 97 <= c as u32 <= 122
    ||| 65 <= c as u32 <= 90
    ||| 48 <= c as u32 <= 57
    ||| c as u32 == 46
    ||| c as u32 == 95
    ||| c as u32 == 45
}

/// A plain volume file name: between 1 and 255 plain characters, neither
/// starting nor ending with a dot. On plain names the filesystem's name
/// matching is exactly case-insensitive equality: its Unicode case folding
/// coincides with ASCII folding, and the short aliases it generates for
/// names that do not fit the 8.3 form carry a tilde, which no plain name
/// holds, so they never capture a plain lookup.
pub open spec fn spec_plain_name(s: Seq<char>) -> bool {
    &&& 1 <= s.len() <= 255
    &&& (forall|i: int| 0 <= i < s.len() ==> spec_plain_char(#[trigger] s[i]))
    &&& s[0] as u32 != 46
    &&& s[s.len() - 1] as u32 != 46
}

/// The ASCII-folded value of a character.
fn fold_char(c: char) -> (r: u32)
    ensures
        r as int == spec_fold_char(c),
{
    let v: u32 = c as u32;
    if 65 <= v && v <= 90 {
        v + 32
    } else {
        v
    }
}

/// Equality of two names up to ASCII case.
pub fn ascii_caseless_eq(a: &str, b: &str) -> (r: bool)
    ensures
        r == spec_caseless_eq(a@, b@),
{
    let n: usize = a.unicode_len();
    if n != b.unicode_len() {
        return false;
    }
    let mut i: usize = 0;
    while i < n
        invariant
            i <= n,
            n == a@.len(),
            n == b@.len(),
            forall|k: int| 0 <= k < i ==> spec_fold_char(a@[k]) == spec_fold_char(b@[k]),
        decreases n - i,
    {
        if fold_char(a.get_char(i)) != fold_char(b.get_char(i)) {
            return false;
        }
        i = i + 1;
    }
    true
}

/// Decide whether a name is plain.
pub fn is_plain_name(s: &str) -> (r: bool)
    ensures
        r == spec_plain_name(s@),
{
    let n: usize = s.unicode_len();
    if n < 1 || n > 255 {
        return false;
    }
    if s.get_char(0) as u32 == 46 || s.get_char(n - 1) as u32 == 46 {
        return false;
    }
    let mut i: usize = 0;
    while i < n
        invariant
            i <= n,
            n == s@.len(),
            forall|k: int| 0 <= k < i ==> spec_plain_char(#[trigger] s@[k]),
        decreases n - i,
    {
        let v: u32 = s.get_char(i) as u32;
        let plain: bool = (97 <= v && v <= 122) || (65 <= v && v <= 90) || (48 <= v && v <= 57)
            || v == 46 || v == 95 || v == 45;
        if !plain {
            return false;
        }
        i = i + 1;
    }
    true
}

/// The error type of the volume formatting and file operations
/// (std::io::Error, which has no specification of its own here).
#[verifier::external_type_specification]
#[verifier::external_body]
pub struct ExIoError(std::io::Error);

/// Whether formatting a buffer of the given length as a fresh FAT32
/// volume succeeds. Over an in-memory buffer nothing else can fail, so
/// success depends on the length alone.
pub uninterp spec fn spec_fat_format_ok(len: int) -> bool;

/// The bytes left by formatting a zeroed buffer of the given length as a
/// fresh FAT32 volume: a function of the length alone, the options being
/// fixed and the filesystem library's timestamps and volume id constant.
/// (Formatting is quick: it does not clear the data region itself, which
/// is why the buffer must be zeroed beforehand.)
pub uninterp spec fn spec_fat_fresh(len: int) -> Seq<u8>;

/// The bytes hold a well-formed FAT volume: one whose declared geometry
/// and cluster chains lie within the bytes and terminate, so that
/// mounting, root-directory lookup and file writes stay inside the buffer
/// and return. Formatting establishes it; a successful file write
/// preserves it. Arbitrary bytes (a truncated or crafted volume) do not
/// satisfy it.
pub uninterp spec fn spec_fat_volume(region: Seq<u8>) -> bool;

/// The files of the volume's root directory: each file name mapped to its
/// exact byte content.
pub uninterp spec fn spec_fat_files(region: Seq<u8>) -> Map<Seq<char>, Seq<u8>>;

/// Whether creating a root file of that name and content succeeds on the
/// volume held in the bytes: a function of the three alone (the free
/// space and the name decide).
pub uninterp spec fn spec_fat_write_ok(region: Seq<u8>, name: Seq<char>, content: Seq<u8>) -> bool;

/// The volume's bytes after a successful write of one root file: a
/// function of the prior bytes, the name and the content alone, the
/// library's timestamps being constant.
pub uninterp spec fn spec_fat_written(region: Seq<u8>, name: Seq<char>, content: Seq<u8>) -> Seq<
    u8,
>;

/// Relies on fatfs::format_volume: formats the buffer in place as a fresh
/// FAT32 volume. Success depends only on the buffer's length, from which
/// the geometry is derived; every write lands within the buffer, so its
/// length is unchanged. Formatting is quick — it writes the volume
/// structures but does not clear the data region — so the resulting bytes
/// are a function of the length only for a zeroed buffer, which the
/// precondition demands. A fresh volume is well formed and its root
/// directory is empty.
#[verifier::external_body]
fn fat_format_volume(region: &mut Vec<u8>) -> (r: Result<(), std::io::Error>)
    requires
        old(region)@ == spec_zeros(old(region)@.len() as int),
    ensures
        final(region)@.len() == old(region)@.len(),
        r is Ok <==> spec_fat_format_ok(old(region)@.len() as int),
        r is Ok ==> {
            &&& final(region)@ == spec_fat_fresh(old(region)@.len() as int)
            &&& spec_fat_volume(final(region)@)
            &&& spec_fat_files(final(region)@) == Map::<Seq<char>, Seq<u8>>::empty()
        },
{
    let options = fatfs::FormatVolumeOptions::new().fat_type(fatfs::FatType::Fat32);
    let mut cursor = std::io::Cursor::new(region);
    fatfs::format_volume(&mut cursor, options)
}

/// Relies on fatfs::FileSystem::new, fatfs::Dir::create_file and the
/// fatfs file's write_all and truncate: mounts the well-formed volume held
/// in the buffer, creates `name` in the root directory, writes `content`
/// to it byte for byte and cuts the file there. On success the volume's
/// file map gains exactly that entry; all output lands within the mounted
/// volume, so the buffer's length is unchanged.
///
/// Name lookup in the library is case-insensitive and splits paths on
/// slashes, and a create that lands on an existing entry keeps that
/// entry's stored name. The preconditions — a plain name, plain existing
/// names, and no existing name differing from this one only in case —
/// restrict the call to where a create touches exactly the key `name`.
#[verifier::external_body]
fn fat_write_root_file(region: &mut Vec<u8>, name: &str, content: &[u8]) -> (r: Result<
    (),
    std::io::Error,
>)
    requires
        spec_fat_volume(old(region)@),
        spec_plain_name(name@),
        forall|k: Seq<char>|
            #[trigger] spec_fat_files(old(region)@).dom().contains(k) ==> spec_plain_name(k),
        forall|k: Seq<char>|
            #[trigger] spec_fat_files(old(region)@).dom().contains(k) && spec_caseless_eq(
                k,
                name@,
            ) ==> k == name@,
    ensures
        final(region)@.len() == old(region)@.len(),
        r is Ok <==> spec_fat_write_ok(old(region)@, name@, content@),
        r is Ok ==> {
            &&& final(region)@ == spec_fat_written(old(region)@, name@, content@)
            &&& spec_fat_volume(final(region)@)
            &&& spec_fat_files(final(region)@) == spec_fat_files(old(region)@).insert(
                name@,
                content@,
            )
        },
{
    let cursor = std::io::Cursor::new(region);
    let fs = fatfs::FileSystem::new(cursor, fatfs::FsOptions::new())?;
    let mut file = fs.root_dir().create_file(name)?;
    file.write_all(content)?;
    file.truncate()?;
    drop(file);
    fs.unmount()?;
    Ok(())
}

/// Relies on fatfs::FileSystem::new, fatfs::Dir::open_file and the fatfs
/// file's read_to_end: mounts the well-formed volume held in the buffer
/// and reads back the full content of a root-directory file. The lookup
/// ignores ASCII case: with a plain query and plain stored names — where
/// the library's Unicode folding and short aliases coincide with ASCII
/// folding — it succeeds exactly when some stored name matches the query
/// up to case, and returns that file's bytes.
#[verifier::external_body]
fn fat_read_root_file(region: &Vec<u8>, name: &str) -> (r: Result<Vec<u8>, std::io::Error>)
    requires
        spec_fat_volume(region@),
        spec_plain_name(name@),
        forall|k: Seq<char>|
            #[trigger] spec_fat_files(region@).dom().contains(k) ==> spec_plain_name(k),
    ensures
        r matches Ok(c) ==> exists|k: Seq<char>|
            {
                &&& #[trigger] spec_fat_files(region@).dom().contains(k)
                &&& spec_caseless_eq(k, name@)
                &&& c@ == spec_fat_files(region@)[k]
            },
        (exists|k: Seq<char>|
            #[trigger] spec_fat_files(region@).dom().contains(k) && spec_caseless_eq(k, name@))
            ==> r is Ok,
{
    let cursor = std::io::Cursor::new(region.clone());
    let fs = fatfs::FileSystem::new(cursor, fatfs::FsOptions::new())?;
    let mut file = fs.root_dir().open_file(name)?;
    let mut content: Vec<u8> = Vec::new();
    file.read_to_end(&mut content)?;
    Ok(content)
}

/// The file map that writing the manifest's entries in order leaves in
/// the volume's root directory: a later entry of the same name wins.
pub open spec fn spec_manifest_map(files: Seq<(String, Vec<u8>)>) -> Map<Seq<char>, Seq<u8>>
    decreases files.len(),
{
    if files.len() == 0 {
        Map::empty()
    } else {
        spec_manifest_map(files.drop_last()).insert(files.last().0@, files.last().1@)
    }
}

/// The volume's bytes after formatting `region_len` zeroed bytes and
/// writing the first `k` manifest entries.
pub open spec fn spec_volume_after(region_len: int, files: Seq<(String, Vec<u8>)>, k: int) -> Seq<
    u8,
>
    decreases k,
{
    if k <= 0 {
        spec_fat_fresh(region_len)
    } else {
        spec_fat_written(
            spec_volume_after(region_len, files, k - 1),
            files[k - 1].0@,
            files[k - 1].1@,
        )
    }
}

/// The manifest's names are usable on the volume: each is plain, and no
/// two differ only in ASCII case (the volume's lookup would conflate
/// them; two entries of the very same name are allowed, the later one
/// winning).
pub open spec fn spec_manifest_names_ok(files: Seq<(String, Vec<u8>)>) -> bool {
    &&& forall|i: int| 0 <= i < files.len() ==> spec_plain_name((#[trigger] files[i]).0@)
    &&& forall|i: int, j: int|
        0 <= i < j < files.len() && spec_caseless_eq(
            (#[trigger] files[i]).0@,
            (#[trigger] files[j]).0@,
        ) ==> files[i].0@ == files[j].0@
}

/// The manifest map's keys are exactly the manifest's names.
proof fn lemma_manifest_map_dom(files: Seq<(String, Vec<u8>)>)
    ensures
        forall|key: Seq<char>|
            #[trigger] spec_manifest_map(files).dom().contains(key) <==> exists|i: int|
                0 <= i < files.len() && (#[trigger] files[i]).0@ == key,
    decreases files.len(),
{
    if files.len() == 0 {
        assert(spec_manifest_map(files).dom() =~= Set::<Seq<char>>::empty());
    } else {
        let head = files.drop_last();
        lemma_manifest_map_dom(head);
        assert(spec_manifest_map(files) == spec_manifest_map(head).insert(
            files.last().0@,
            files.last().1@,
        ));
        assert(spec_manifest_map(files).dom() =~= spec_manifest_map(head).dom().insert(
            files.last().0@,
        ));
        assert forall|key: Seq<char>| #[trigger]
            spec_manifest_map(files).dom().contains(key) implies exists|i: int|
            0 <= i < files.len() && (#[trigger] files[i]).0@ == key by {
            if key == files.last().0@ {
                assert(files[files.len() - 1].0@ == key);
            } else {
                assert(spec_manifest_map(head).dom().contains(key));
                let i = choose|i: int| 0 <= i < head.len() && (#[trigger] head[i]).0@ == key;
                assert(head[i] == files[i]);
                assert(files[i].0@ == key);
            }
        }
        assert forall|key: Seq<char>|
            (exists|i: int| 0 <= i < files.len() && (#[trigger] files[i]).0@ == key) implies #[trigger]
            spec_manifest_map(files).dom().contains(key) by {
            let i = choose|i: int| 0 <= i < files.len() && (#[trigger] files[i]).0@ == key;
            if i == files.len() - 1 {
            } else {
                assert(head[i] == files[i]);
                assert(head[i].0@ == key);
                assert(spec_manifest_map(head).dom().contains(key));
            }
        }
    }
}

/// The boot volume build succeeds: the manifest's names are usable, the
/// region formats, and each entry's write succeeds on the volume as it
/// stands before it.
pub open spec fn spec_build_ok(region_len: int, files: Seq<(String, Vec<u8>)>) -> bool {
    &&& spec_manifest_names_ok(files)
    &&& spec_fat_format_ok(region_len)
    &&& forall|k: int|
        0 <= k < files.len() ==> spec_fat_write_ok(
            #[trigger] spec_volume_after(region_len, files, k),
            files[k].0@,
            files[k].1@,
        )
}

/// Decide whether the manifest's names are usable on the volume.
fn manifest_names_ok(files: &Vec<(String, Vec<u8>)>) -> (r: bool)
    ensures
        r == spec_manifest_names_ok(files@),
{
    let mut i: usize = 0;
    while i < files.len()
        invariant
            i <= files@.len(),
            forall|m: int| 0 <= m < i ==> spec_plain_name((#[trigger] files@[m]).0@),
            forall|m: int, j: int|
                0 <= m < j < i && spec_caseless_eq(
                    (#[trigger] files@[m]).0@,
                    (#[trigger] files@[j]).0@,
                ) ==> files@[m].0@ == files@[j].0@,
        decreases files@.len() - i,
    {
        if !is_plain_name(files[i].0.as_str()) {
            return false;
        }
        let mut j: usize = 0;
        while j < i
            invariant
                j <= i < files@.len(),
                forall|m: int|
                    0 <= m < j && spec_caseless_eq(
                        (#[trigger] files@[m]).0@,
                        files@[i as int].0@,
                    ) ==> files@[m].0@ == files@[i as int].0@,
            decreases i - j,
        {
            if ascii_caseless_eq(files[j].0.as_str(), files[i].0.as_str()) && !str_eq(
                files[j].0.as_str(),
                files[i].0.as_str(),
            ) {
                return false;
            }
            j = j + 1;
        }
        i = i + 1;
    }
    true
}

/// Case folding preserves plainness: a name equal up to ASCII case to a
/// plain name is itself plain, since only ASCII letters share a folded
/// value with another character.
proof fn lemma_caseless_eq_plain(a: Seq<char>, b: Seq<char>)
    requires
        spec_plain_name(a),
        spec_caseless_eq(a, b),
    ensures
        spec_plain_name(b),
{
    assert forall|i: int| 0 <= i < b.len() implies spec_plain_char(#[trigger] b[i]) by {
        assert(spec_fold_char(a[i]) == spec_fold_char(b[i]));
        assert(spec_plain_char(a[i]));
    }
    assert(spec_fold_char(a[0]) == spec_fold_char(b[0]));
    assert(spec_fold_char(a[a.len() - 1]) == spec_fold_char(b[b.len() - 1]));
}

/// A built boot volume: the raw bytes of the boot region, carrying the
/// invariant that they hold a well-formed FAT32 volume with plain file
/// names, which the read operation needs.
pub struct BootVolume {
    region: Vec<u8>,
}

impl BootVolume {
    #[verifier::type_invariant]
    spec fn inv(self) -> bool {
        &&& spec_fat_volume(self.region@)
        &&& forall|k: Seq<char>|
            #[trigger] spec_fat_files(self.region@).dom().contains(k) ==> spec_plain_name(k)
    }

    /// The raw bytes of the volume.
    pub closed spec fn bytes(self) -> Seq<u8> {
        self.region@
    }

    /// Borrow the volume's bytes, to be written to the boot region or
    /// searched by the patcher.
    pub fn as_bytes(&self) -> (r: &[u8])
        ensures
            r@ == self.bytes(),
    {
        self.region.as_slice()
    }

    /// Take the volume's bytes.
    pub fn into_bytes(self) -> (r: Vec<u8>)
        ensures
            r@ == self.bytes(),
    {
        self.region
    }

    /// Read back one file of the volume's root directory. The volume's
    /// lookup ignores ASCII case, so the bytes returned are those of the
    /// stored file whose name matches the query up to case; the call
    /// fails exactly when the query is not a plain name or no stored name
    /// matches it.
    pub fn read_file(&self, name: &str) -> (r: Result<Vec<u8>, ImageError>)
        ensures
            r matches Ok(c) ==> exists|k: Seq<char>|
                {
                    &&& #[trigger] spec_fat_files(self.bytes()).dom().contains(k)
                    &&& spec_caseless_eq(k, name@)
                    &&& c@ == spec_fat_files(self.bytes())[k]
                },
            r is Err <==> (!spec_plain_name(name@) || !(exists|k: Seq<char>|
                #[trigger] spec_fat_files(self.bytes()).dom().contains(k) && spec_caseless_eq(
                    k,
                    name@,
                ))),
            r is Err ==> r == Err::<Vec<u8>, ImageError>(ImageError::BootVolume),
    {
        proof {
            use_type_invariant(&*self);
        }
        if !is_plain_name(name) {
            proof {
                assert(!(exists|k: Seq<char>|
                    #[trigger] spec_fat_files(self.bytes()).dom().contains(k) && spec_caseless_eq(
                        k,
                        name@,
                    ))) by {
                    assert forall|k: Seq<char>| #[trigger]
                        spec_fat_files(self.bytes()).dom().contains(k) implies !spec_caseless_eq(
                        k,
                        name@,
                    ) by {
                        if spec_caseless_eq(k, name@) {
                            lemma_caseless_eq_plain(k, name@);
                        }
                    }
                }
            }
            return Err(ImageError::BootVolume);
        }
        proof {
            assert(self.bytes() == self.region@);
        }
        match fat_read_root_file(&self.region, name) {
            Ok(content) => Ok(content),
            Err(_) => Err(ImageError::BootVolume),
        }
    }
}

/// Build the boot volume in memory: format `region_len` zeroed bytes as a
/// fresh FAT32 volume and write each manifest entry as a file in the
/// volume's root directory, in manifest order, each entry's bytes
/// unmodified. The build succeeds exactly when the manifest's names are
/// usable (plain, none differing from another only in case), the region
/// formats, and every write fits; the volume then holds exactly the
/// manifest's files.
pub fn build_boot_volume(region_len: usize, files: &Vec<(String, Vec<u8>)>) -> (r: Result<
    BootVolume,
    ImageError,
>)
    ensures
        r is Ok <==> spec_build_ok(region_len as int, files@),
        r matches Ok(v) ==> {
            &&& v.bytes().len() == region_len
            &&& v.bytes() == spec_volume_after(region_len as int, files@, files@.len() as int)
            &&& spec_fat_files(v.bytes()) == spec_manifest_map(files@)
        },
        r is Err ==> r == Err::<BootVolume, ImageError>(ImageError::BootVolume),
{
    if !manifest_names_ok(files) {
        return Err(ImageError::BootVolume);
    }
    let mut region: Vec<u8> = Vec::new();
    let mut i: usize = 0;
    while i < region_len
        invariant
            i <= region_len,
            region@ =~= spec_zeros(i as int),
        decreases region_len - i,
    {
        region.push(0);
        i = i + 1;
    }
    match fat_format_volume(&mut region) {
        Ok(u) => u,
        Err(_) => {
            return Err(ImageError::BootVolume);
        },
    }
    proof {
        assert(files@.take(0) =~= Seq::<(String, Vec<u8>)>::empty());
    }
    let mut k: usize = 0;
    while k < files.len()
        invariant
            k <= files@.len(),
            spec_manifest_names_ok(files@),
            region@.len() == region_len,
            spec_fat_format_ok(region_len as int),
            region@ == spec_volume_after(region_len as int, files@, k as int),
            spec_fat_volume(region@),
            spec_fat_files(region@) == spec_manifest_map(files@.take(k as int)),
            forall|m: int|
                0 <= m < k ==> spec_fat_write_ok(
                    #[trigger] spec_volume_after(region_len as int, files@, m),
                    files@[m].0@,
                    files@[m].1@,
                ),
        decreases files@.len() - k,
    {
        let entry = &files[k];
        proof {
            lemma_manifest_map_dom(files@.take(k as int));
            assert forall|key: Seq<char>| #[trigger]
                spec_fat_files(region@).dom().contains(key) implies spec_plain_name(key) by {
                let m = choose|m: int|
                    0 <= m < files@.take(k as int).len() && (#[trigger] files@.take(
                        k as int,
                    )[m]).0@ == key;
                assert(files@[m].0@ == key);
            }
            assert forall|key: Seq<char>| #[trigger]
                spec_fat_files(region@).dom().contains(key) && spec_caseless_eq(
                key,
                files@[k as int].0@,
            ) implies key == files@[k as int].0@ by {
                let m = choose|m: int|
                    0 <= m < files@.take(k as int).len() && (#[trigger] files@.take(
                        k as int,
                    )[m]).0@ == key;
                assert(files@[m].0@ == key);
                assert(spec_caseless_eq(files@[m].0@, files@[k as int].0@));
            }
        }
        match fat_write_root_file(&mut region, entry.0.as_str(), entry.1.as_slice()) {
            Ok(u) => u,
            Err(_) => {
                proof {
                    assert(!spec_fat_write_ok(
                        spec_volume_after(region_len as int, files@, k as int),
                        files@[k as int].0@,
                        files@[k as int].1@,
                    ));
                }
                return Err(ImageError::BootVolume);
            },
        }
        k = k + 1;
        proof {
            assert(files@.take(k as int).drop_last() =~= files@.take(k as int - 1));
            assert(files@.take(k as int).last() == files@[k as int - 1]);
            assert(spec_fat_files(region@) == spec_manifest_map(files@.take(k as int)));
        }
    }
    proof {
        assert(files@.take(files@.len() as int) =~= files@);
        lemma_manifest_map_dom(files@);
        assert forall|key: Seq<char>| #[trigger]
            spec_fat_files(region@).dom().contains(key) implies spec_plain_name(key) by {
            let m = choose|m: int| 0 <= m < files@.len() && (#[trigger] files@[m]).0@ == key;
        }
    }
    Ok(BootVolume { region })
}

/// The manifest map holds each entry whose name no later entry repeats,
/// under exactly its bytes.
proof fn lemma_manifest_map_lookup(files: Seq<(String, Vec<u8>)>, i: int)
    requires
        0 <= i < files.len(),
        forall|j: int| i < j < files.len() ==> (#[trigger] files[j]).0@ != files[i].0@,
    ensures
        spec_manifest_map(files).contains_key(files[i].0@),
        spec_manifest_map(files)[files[i].0@] == files[i].1@,
    decreases files.len(),
{
    if i == files.len() - 1 {
    } else {
        assert(files.drop_last()[i] == files[i]);
        assert forall|j: int|
            i < j < files.drop_last().len() implies (#[trigger] files.drop_last()[j]).0@
            != files.drop_last()[i].0@ by {
            assert(files.drop_last()[j] == files[j]);
        }
        lemma_manifest_map_lookup(files.drop_last(), i);
        assert(files.last().0@ != files[i].0@);
    }
}

/// Law: content written to the boot volume is exactly recoverable by
/// reading the same bytes back. A volume holding the manifest's files
/// maps each entry whose name no later entry repeats to precisely the
/// bytes that were handed in; with usable names no other stored name
/// matches that name up to case, so reading it back yields exactly those
/// bytes.
pub proof fn lemma_boot_round_trip(region: Seq<u8>, files: Seq<(String, Vec<u8>)>, i: int)
    requires
        spec_fat_files(region) == spec_manifest_map(files),
        spec_manifest_names_ok(files),
        0 <= i < files.len(),
        forall|j: int| i < j < files.len() ==> (#[trigger] files[j]).0@ != files[i].0@,
    ensures
        spec_fat_files(region).contains_key(files[i].0@),
        spec_fat_files(region)[files[i].0@] == files[i].1@,
        forall|k: Seq<char>|
            #[trigger] spec_fat_files(region).dom().contains(k) && spec_caseless_eq(
                k,
                files[i].0@,
            ) ==> k == files[i].0@,
{
    lemma_manifest_map_lookup(files, i);
    lemma_manifest_map_dom(files);
    assert forall|k: Seq<char>| #[trigger]
        spec_fat_files(region).dom().contains(k) && spec_caseless_eq(
        k,
        files[i].0@,
    ) implies k == files[i].0@ by {
        let m = choose|m: int| 0 <= m < files.len() && (#[trigger] files[m]).0@ == k;
        if m < i {
            assert(spec_caseless_eq(files[m].0@, files[i].0@));
        } else if m > i {
            assert(spec_caseless_eq(files[i].0@, files[m].0@));
        }
    }
}

/// Look up a manifest entry by file name: the first entry whose name
/// matches, as with the boot files' fixed names there is at most one.
pub fn manifest_get<'a>(files: &'a Vec<(String, Vec<u8>)>, name: &str) -> (r: Option<&'a Vec<u8>>)
    ensures
        match r {
            Some(v) => exists|i: int|
                {
                    &&& 0 <= i < files@.len()
                    &&& (#[trigger] files@[i]).0@ == name@
                    &&& v@ == files@[i].1@
                    &&& forall|j: int| 0 <= j < i ==> (#[trigger] files@[j]).0@ != name@
                },
            None => forall|i: int| 0 <= i < files@.len() ==> (#[trigger] files@[i]).0@ != name@,
        },
{
    let mut i: usize = 0;
    while i < files.len()
        invariant
            i <= files@.len(),
            forall|j: int| 0 <= j < i ==> (#[trigger] files@[j]).0@ != name@,
        decreases files@.len() - i,
    {
        if str_eq(files[i].0.as_str(), name) {
            return Some(&files[i].1);
        }
        i = i + 1;
    }
    None
}

} // verus!
