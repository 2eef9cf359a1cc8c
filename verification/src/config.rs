//! Run configuration: architecture tags, package-spec name resolution, and
//! the fail-fast validation performed before any output is touched.

use vstd::prelude::*;

use vstd::string::StrSliceExecFns;

use crate::ImageError;

verus! {

/// Supported target architectures.
#[derive(Clone, Copy, Debug, PartialEq, Eq, Structural)]
pub enum Arch {
    X86_64,
    Rpi,
}

/// Equality of two string slices, decided character by character.
pub fn str_eq(a: &str, b: &str) -> (r: bool)
    ensures
        r == (a@ == b@),
{
    let n: usize = a.unicode_len();
    if n != b.unicode_len() {
        return false;
    }
    let mut i: usize = 0;
    while i < n
        invariant
            i <= n,
            n == a@.len(),
            n == b@.len(),
            forall|k: int| 0 <= k < i ==> a@[k] == b@[k],
        decreases n - i,
    {
        if a.get_char(i) != b.get_char(i) {
            return false;
        }
        i = i + 1;
    }
    proof {
        assert(a@ =~= b@);
    }
    true
}

/// Parse an architecture tag. Exactly the supported tags are accepted.
pub fn parse_arch(tag: &str) -> (r: Result<Arch, ImageError>)
    ensures
        tag@ == "x86_64"@ ==> r == Ok::<Arch, ImageError>(Arch::X86_64),
        tag@ == "rpi"@ ==> r == Ok::<Arch, ImageError>(Arch::Rpi),
        tag@ != "x86_64"@ && tag@ != "rpi"@ ==> r == Err::<Arch, ImageError>(
            ImageError::InvalidArchitecture,
        ),
{
    proof {
        reveal_strlit("x86_64");
        reveal_strlit("rpi");
        assert("x86_64"@.len() == 6);
        assert("rpi"@.len() == 3);
    }
    if str_eq(tag, "x86_64") {
        Ok(Arch::X86_64)
    } else if str_eq(tag, "rpi") {
        Ok(Arch::Rpi)
    } else {
        Err(ImageError::InvalidArchitecture)
    }
}

/// Position of the first occurrence of `c` in `s` at or after `from`.
pub open spec fn spec_find_char(s: Seq<char>, c: char, from: int) -> Option<int>
    decreases s.len() - from
        when 0 <= from <= s.len()
{
    if from >= s.len() {
        None
    } else if s[from] == c {
        Some(from)
    } else {
        spec_find_char(s, c, from + 1)
    }
}

/// Find the first occurrence of `c` in `s` at or after `from`.
pub fn find_char(s: &str, c: char, from: usize) -> (r: Option<usize>)
    requires
        from <= s@.len(),
    ensures
        match r {
            Some(i) => from <= i < s@.len() && spec_find_char(s@, c, from as int) == Some(i as int),
            None => spec_find_char(s@, c, from as int) is None,
        },
{
    let n: usize = s.unicode_len();
    let mut i: usize = from;
    while i < n
        invariant
            from <= i <= n,
            n == s@.len(),
            spec_find_char(s@, c, from as int) == spec_find_char(s@, c, i as int),
        decreases n - i,
    {
        if s.get_char(i) == c {
            return Some(i);
        }
        i = i + 1;
    }
    None
}

/// The name with every trailing ".git" suffix removed.
pub open spec fn spec_trim_git(s: Seq<char>) -> Seq<char>
    decreases s.len(),
{
    if s.len() >= 4 && s.subrange(s.len() - 4, s.len() as int) == ".git"@ {
        spec_trim_git(s.subrange(0, s.len() - 4))
    } else {
        s
    }
}

/// Remove every trailing ".git" suffix from a derived package name.
pub fn trim_git(s: &str) -> (r: String)
    ensures
        r@ == spec_trim_git(s@),
    decreases s@.len(),
{
    let n: usize = s.unicode_len();
    if n >= 4 {
        let tail = s.substring_char(n - 4, n);
        if str_eq(tail, ".git") {
            let head = s.substring_char(0, n - 4);
            return trim_git(head);
        }
    }
    s.to_owned()
}

/// The last path segment of `s` parsed as an absolute URL: what parsing
/// the string and walking to the final segment of its path yields. It is a
/// function of the string alone; there is no segment when the string is not
/// a valid URL or the URL has no segmented path.
pub uninterp spec fn spec_url_last_segment(s: Seq<char>) -> Option<Seq<char>>;

/// Relies on url::Url::parse and url::Url::path_segments: parses the string
/// as an absolute URL and hands back the last segment of its path, or
/// nothing when the string does not parse or the URL cannot have path
/// segments. Parsing is deterministic in the input string.
#[verifier::external_body]
fn url_last_path_segment(s: &str) -> (r: Option<String>)
    ensures
        r matches Some(t) ==> spec_url_last_segment(s@) == Some(t@),
        r is None ==> spec_url_last_segment(s@) is None,
{
    match url::Url::parse(s) {
        Ok(u) => match u.path_segments() {
            Some(mut segments) => segments.next_back().map(|t| t.to_owned()),
            None => None,
        },
        Err(_) => None,
    }
}

/// The resolved binary name of a source-control package spec
/// `<url>[%<name>]`: the explicit override if one is given, otherwise the
/// last path segment of the URL with any ".git" suffix removed. There is
/// no name when the URL part does not parse.
pub open spec fn spec_resolve_git_name(entry: Seq<char>) -> Option<Seq<char>> {
    match spec_find_char(entry, '%', 0) {
        None => match spec_url_last_segment(entry) {
            None => None,
            Some(segment) => Some(spec_trim_git(segment)),
        },
        Some(i) => {
            let url_part = entry.subrange(0, i);
            let rest = entry.subrange(i + 1, entry.len() as int);
            let name = match spec_find_char(rest, '%', 0) {
                None => rest,
                Some(j) => rest.subrange(0, j),
            };
            if spec_url_last_segment(url_part) is Some {
                Some(name)
            } else {
                None
            }
        },
    }
}

/// Resolve the binary name of a source-control package spec
/// `<url>[%<name>]`. An unparsable URL yields no name: such a spec never
/// satisfies the init check and is rejected as a configuration error.
pub fn resolve_git_name(entry: &str) -> (r: Option<String>)
    ensures
        r matches Some(t) ==> spec_resolve_git_name(entry@) == Some(t@),
        r is None ==> spec_resolve_git_name(entry@) is None,
{
    let n: usize = entry.unicode_len();
    match find_char(entry, '%', 0) {
        None => {
            match url_last_path_segment(entry) {
                None => None,
                Some(segment) => Some(trim_git(segment.as_str())),
            }
        },
        Some(i) => {
            let url_part = entry.substring_char(0, i);
            let rest = entry.substring_char(i + 1, n);
            let name = match find_char(rest, '%', 0) {
                None => rest,
                Some(j) => rest.substring_char(0, j),
            };
            match url_last_path_segment(url_part) {
                None => None,
                Some(_) => Some(name.to_owned()),
            }
        },
    }
}

/// Resolve the binary name of a source-control package spec, failing on a
/// spec whose URL part does not parse: when the image is built, such a
/// spec is a fatal configuration error rather than a skipped entry.
pub fn require_git_name(entry: &str) -> (r: Result<String, ImageError>)
    ensures
        r matches Ok(t) ==> spec_resolve_git_name(entry@) == Some(t@),
        r is Err ==> spec_resolve_git_name(entry@) is None && r == Err::<String, ImageError>(
            ImageError::InvalidPackageSpec,
        ),
{
    match resolve_git_name(entry) {
        Some(name) => Ok(name),
        None => Err(ImageError::InvalidPackageSpec),
    }
}

/// The designated init name appears in the install set: it equals a
/// registry package name, or the resolved name of a source-control spec.
pub open spec fn spec_init_present(
    crates: Seq<Seq<char>>,
    git: Seq<Seq<char>>,
    init: Seq<char>,
) -> bool {
    ||| exists|i: int| 0 <= i < crates.len() && crates[i] == init
    ||| exists|i: int| 0 <= i < git.len() && spec_resolve_git_name(git[i]) == Some(init)
}

/// Decide whether the designated init package appears in the install set.
pub fn init_present(crates: &Vec<String>, git: &Vec<String>, init: &str) -> (r: bool)
    ensures
        r == spec_init_present(crates.deep_view(), git.deep_view(), init@),
{
    let mut i: usize = 0;
    while i < crates.len()
        invariant
            i <= crates@.len(),
            forall|k: int| 0 <= k < i ==> crates.deep_view()[k] != init@,
        decreases crates@.len() - i,
    {
        if str_eq(crates[i].as_str(), init) {
            proof {
                assert(0 <= i < crates.deep_view().len() && crates.deep_view()[i as int] == init@);
            }
            return true;
        }
        i = i + 1;
    }
    let mut j: usize = 0;
    while j < git.len()
        invariant
            j <= git@.len(),
            forall|k: int| 0 <= k < j ==> spec_resolve_git_name(git.deep_view()[k]) != Some(init@),
        decreases git@.len() - j,
    {
        match resolve_git_name(git[j].as_str()) {
            Some(name) => {
                if str_eq(name.as_str(), init) {
                    proof {
                        assert(0 <= j < git.deep_view().len() && spec_resolve_git_name(
                            git.deep_view()[j as int],
                        ) == Some(init@));
                    }
                    return true;
                }
            },
            None => {},
        }
        j = j + 1;
    }
    false
}

/// Validate a run's configuration before anything is touched: the
/// architecture tag must be supported, the designated init package must
/// appear in the install set (a device with no first process is a
/// build-time error), and a plain-file target must come with an explicit
/// size, a raw device's size being queried from the system instead.
pub fn validate_run(
    arch: &str,
    crates: &Vec<String>,
    git: &Vec<String>,
    init: &str,
    is_device: bool,
    size: Option<u64>,
) -> (r: Result<Arch, ImageError>)
    ensures
        ({
            let arch_ok = arch@ == "x86_64"@ || arch@ == "rpi"@;
            let present = spec_init_present(crates.deep_view(), git.deep_view(), init@);
            if !arch_ok {
                r == Err::<Arch, ImageError>(ImageError::InvalidArchitecture)
            } else if !present {
                r == Err::<Arch, ImageError>(ImageError::InitNotFound)
            } else if !is_device && size is None {
                r == Err::<Arch, ImageError>(ImageError::MissingSize)
            } else {
                &&& arch@ == "x86_64"@ ==> r == Ok::<Arch, ImageError>(Arch::X86_64)
                &&& arch@ == "rpi"@ ==> r == Ok::<Arch, ImageError>(Arch::Rpi)
                &&& r is Ok
            }
        }),
{
    let parsed = parse_arch(arch)?;
    if !init_present(crates, git, init) {
        return Err(ImageError::InitNotFound);
    }
    if !is_device && size.is_none() {
        return Err(ImageError::MissingSize);
    }
    Ok(parsed)
}

} // verus!
