//! Root filesystem assembly: the serialized tree of the read-only root
//! volume — one file per installed package under bin/ with the init
//! package renamed to "init", empty dev/ and boot/ directories, and fixed
//! metadata on every node so that the serialized tree is reproducible.

use vstd::prelude::*;

use vstd::string::StringExecFns;

use crate::config::str_eq;
use crate::config::Arch;

verus! {

/// The cross-compilation target triple of an architecture.
pub fn target_triple(arch: Arch) -> (r: String)
    ensures
        arch == Arch::X86_64 ==> r@ == "x86_64-unknown-linux-musl"@,
        arch == Arch::Rpi ==> r@ == "aarch64-unknown-linux-musl"@,
{
    match arch {
        Arch::X86_64 => "x86_64-unknown-linux-musl".to_owned(),
        Arch::Rpi => "aarch64-unknown-linux-musl".to_owned(),
    }
}

/// The extra compiler arguments of an architecture: the Raspberry Pi
/// build names its cross linker explicitly, the rest need none.
pub fn extra_rustc_args(arch: Arch) -> (r: Vec<String>)
    ensures
        arch == Arch::Rpi ==> r@.len() == 2 && r@[0]@ == "-C"@ && r@[1]@
            == "linker=aarch64-linux-gnu-ld"@,
        arch == Arch::X86_64 ==> r@.len() == 0,
{
    let mut args: Vec<String> = Vec::new();
    if let Arch::Rpi = arch {
        args.push("-C".to_owned());
        args.push("linker=aarch64-linux-gnu-ld".to_owned());
    }
    args
}

/// Metadata of one node of the root tree.
#[derive(Clone, Copy, Debug, PartialEq, Eq, Structural)]
pub struct NodeMeta {
    pub uid: u32,
    pub gid: u32,
    pub mode: u16,
    pub mtime: u32,
}

/// The fixed metadata of every node: owned by root, mode 0755, zero
/// modification time. Identical across runs by construction.
pub open spec fn spec_fixed_meta() -> NodeMeta {
    NodeMeta { uid: 0, gid: 0, mode: 0o755, mtime: 0 }
}

/// The fixed metadata as a value.
pub fn fixed_meta() -> (r: NodeMeta)
    ensures
        r == spec_fixed_meta(),
{
    NodeMeta { uid: 0, gid: 0, mode: 0o755, mtime: 0 }
}

/// A node of the serialized root tree.
pub enum NodeKind {
    /// A file whose bytes are the staged binary named `source`.
    File { source: String },
    /// A directory with the given child names, in insertion order.
    Dir { children: Vec<String> },
}

/// One entry of the serialization plan: the absolute path of the node, the
/// node itself, and its metadata. Entries stand children before parents,
/// the order a serializer allocates inodes in.
pub struct TreeEntry {
    pub path: String,
    pub kind: NodeKind,
    pub meta: NodeMeta,
}

/// The file name a package gets in bin/: "init" for the init package, the
/// package's own name otherwise.
pub open spec fn spec_bin_name(pkg: Seq<char>, init: Seq<char>) -> Seq<char> {
    if pkg == init {
        "init"@
    } else {
        pkg
    }
}

/// The absolute path of a file in bin/.
pub open spec fn spec_bin_path(name: Seq<char>) -> Seq<char> {
    "/bin/"@ + name
}

/// The file name a package gets in bin/.
pub fn bin_name(pkg: &str, init: &str) -> (r: String)
    ensures
        r@ == spec_bin_name(pkg@, init@),
{
    if str_eq(pkg, init) {
        "init".to_owned()
    } else {
        pkg.to_owned()
    }
}

/// The serialization plan of one root filesystem over the given packages:
/// first one file entry per package, in input order, at
/// `/bin/<renamed name>` sourcing the staged binary of the package's own
/// name; then the bin/ directory listing the renamed names in the same
/// order; then empty dev/ and boot/ directories; then the root directory
/// listing bin, dev and boot. Every entry carries the fixed metadata.
pub open spec fn tree_entries_match(
    es: Seq<TreeEntry>,
    packages: Seq<Seq<char>>,
    init: Seq<char>,
) -> bool {
    let n = packages.len() as int;
    &&& es.len() == n + 4
    &&& forall|i: int|
        0 <= i < n ==> {
            &&& (#[trigger] es[i]).path@ == spec_bin_path(spec_bin_name(packages[i], init))
            &&& (es[i].kind matches NodeKind::File { source } && source@ == packages[i])
            &&& es[i].meta == spec_fixed_meta()
        }
    &&& es[n].path@ == "/bin"@
    &&& (es[n].kind matches NodeKind::Dir { children } && children.deep_view() =~= packages.map_values(
        |p: Seq<char>| spec_bin_name(p, init),
    ))
    &&& es[n].meta == spec_fixed_meta()
    &&& es[n + 1].path@ == "/dev"@
    &&& (es[n + 1].kind matches NodeKind::Dir { children } && children@.len() == 0)
    &&& es[n + 1].meta == spec_fixed_meta()
    &&& es[n + 2].path@ == "/boot"@
    &&& (es[n + 2].kind matches NodeKind::Dir { children } && children@.len() == 0)
    &&& es[n + 2].meta == spec_fixed_meta()
    &&& es[n + 3].path@ == "/"@
    &&& (es[n + 3].kind matches NodeKind::Dir { children } && children.deep_view() =~= seq![
        "bin"@,
        "dev"@,
        "boot"@,
    ])
    &&& es[n + 3].meta == spec_fixed_meta()
}

/// Build the serialization plan of one root filesystem: files for the
/// installed packages (the init package renamed to "init"), the bin/,
/// dev/ and boot/ directories, and the root, children before parents.
pub fn root_tree_entries(packages: &Vec<String>, init: &str) -> (r: Vec<TreeEntry>)
    ensures
        tree_entries_match(r@, packages.deep_view(), init@),
{
    let mut entries: Vec<TreeEntry> = Vec::new();
    let mut bin_children: Vec<String> = Vec::new();
    let mut i: usize = 0;
    while i < packages.len()
        invariant
            i <= packages@.len(),
            entries@.len() == i,
            bin_children@.len() == i,
            forall|k: int|
                0 <= k < i ==> {
                    &&& (#[trigger] entries@[k]).path@ == spec_bin_path(
                        spec_bin_name(packages@[k]@, init@),
                    )
                    &&& (entries@[k].kind matches NodeKind::File { source } && source@
                        == packages@[k]@)
                    &&& entries@[k].meta == spec_fixed_meta()
                },
            forall|k: int| 0 <= k < i ==> (#[trigger] bin_children@[k])@ == spec_bin_name(
                packages@[k]@,
                init@,
            ),
        decreases packages@.len() - i,
    {
        let name = bin_name(packages[i].as_str(), init);
        let path = "/bin/".to_owned().concat(name.as_str());
        entries.push(
            TreeEntry {
                path,
                kind: NodeKind::File { source: packages[i].clone() },
                meta: fixed_meta(),
            },
        );
        bin_children.push(name);
        i = i + 1;
    }
    proof {
        assert forall|k: int|
            0 <= k < packages@.len() implies #[trigger] packages.deep_view()[k]
            == packages@[k]@ by {}
        assert forall|k: int|
            0 <= k < bin_children@.len() implies #[trigger] bin_children.deep_view()[k]
            == spec_bin_name(packages.deep_view()[k], init@) by {
            assert(bin_children.deep_view()[k] == bin_children@[k]@);
        }
        assert(bin_children.deep_view() =~= packages.deep_view().map_values(
            |p: Seq<char>| spec_bin_name(p, init@),
        ));
        assert forall|k: int|
            0 <= k < packages@.len() implies {
                &&& (#[trigger] entries@[k]).path@ == spec_bin_path(
                    spec_bin_name(packages.deep_view()[k], init@),
                )
                &&& (entries@[k].kind matches NodeKind::File { source } && source@
                    == packages.deep_view()[k])
                &&& entries@[k].meta == spec_fixed_meta()
            } by {}
    }
    entries.push(
        TreeEntry {
            path: "/bin".to_owned(),
            kind: NodeKind::Dir { children: bin_children },
            meta: fixed_meta(),
        },
    );
    entries.push(
        TreeEntry {
            path: "/dev".to_owned(),
            kind: NodeKind::Dir { children: Vec::new() },
            meta: fixed_meta(),
        },
    );
    entries.push(
        TreeEntry {
            path: "/boot".to_owned(),
            kind: NodeKind::Dir { children: Vec::new() },
            meta: fixed_meta(),
        },
    );
    let mut root_children: Vec<String> = Vec::new();
    root_children.push("bin".to_owned());
    root_children.push("dev".to_owned());
    root_children.push("boot".to_owned());
    proof {
        assert(root_children.deep_view() =~= seq!["bin"@, "dev"@, "boot"@]);
    }
    entries.push(
        TreeEntry {
            path: "/".to_owned(),
            kind: NodeKind::Dir { children: root_children },
            meta: fixed_meta(),
        },
    );
    entries
}

/// Concatenation with a fixed prefix is injective in the suffix.
proof fn lemma_prefix_concat_injective(prefix: Seq<char>, a: Seq<char>, b: Seq<char>)
    requires
        prefix + a == prefix + b,
    ensures
        a == b,
{
    assert(a =~= (prefix + a).subrange(prefix.len() as int, (prefix + a).len() as int));
    assert(b =~= (prefix + b).subrange(prefix.len() as int, (prefix + b).len() as int));
}

/// Law: the init package's file stands at "/bin/init" in the serialized
/// tree, never at "/bin/<its original name>", wherever it appears in the
/// input list. (When the init package is itself named "init" the two
/// paths are one and the same, so nothing is excluded.)
pub proof fn lemma_init_renamed(es: Seq<TreeEntry>, packages: Seq<Seq<char>>, init: Seq<char>)
    requires
        tree_entries_match(es, packages, init),
        exists|i: int| 0 <= i < packages.len() && packages[i] == init,
    ensures
        exists|i: int|
            0 <= i < packages.len() && (#[trigger] es[i]).path@ == spec_bin_path("init"@),
        init != "init"@ ==> forall|i: int|
            0 <= i < packages.len() ==> (#[trigger] es[i]).path@ != spec_bin_path(init),
{
    let i0 = choose|i: int| 0 <= i < packages.len() && packages[i] == init;
    assert(es[i0].path@ == spec_bin_path("init"@));
    if init != "init"@ {
        assert forall|i: int| 0 <= i < packages.len() implies (#[trigger] es[i]).path@
            != spec_bin_path(init) by {
            if es[i].path@ == spec_bin_path(init) {
                lemma_prefix_concat_injective(
                    "/bin/"@,
                    spec_bin_name(packages[i], init),
                    init,
                );
            }
        }
    }
}

/// Law: the serialization plan is a function of the package list and the
/// init name alone. Two plans built over the same inputs — in particular
/// by two independent runs against the same staging binaries — agree
/// entry for entry in path, node shape, child lists and metadata.
pub proof fn lemma_tree_deterministic(
    es1: Seq<TreeEntry>,
    es2: Seq<TreeEntry>,
    packages: Seq<Seq<char>>,
    init: Seq<char>,
)
    requires
        tree_entries_match(es1, packages, init),
        tree_entries_match(es2, packages, init),
    ensures
        es1.len() == es2.len(),
        forall|i: int| 0 <= i < es1.len() ==> (#[trigger] es1[i]).path@ == es2[i].path@,
        forall|i: int| 0 <= i < es1.len() ==> (#[trigger] es1[i]).meta == es2[i].meta,
        forall|i: int|
            0 <= i < es1.len() ==> ((#[trigger] es1[i]).kind matches NodeKind::File { source }
                ==> (es2[i].kind matches NodeKind::File { source: s2 } && source@ == s2@)),
        forall|i: int|
            0 <= i < es1.len() ==> ((#[trigger] es1[i]).kind matches NodeKind::Dir { children }
                ==> (es2[i].kind matches NodeKind::Dir { children: c2 } && children.deep_view()
                =~= c2.deep_view())),
{
    let n = packages.len() as int;
    lemma_fixed_metadata(es1, packages, init);
    lemma_fixed_metadata(es2, packages, init);
    assert forall|i: int| 0 <= i < es1.len() implies (#[trigger] es1[i]).path@ == es2[i].path@ by {
        if i < n {
        } else {
            assert(i == n || i == n + 1 || i == n + 2 || i == n + 3);
        }
    }
}

/// The plan has a node at the given path.
pub open spec fn spec_has_path(es: Seq<TreeEntry>, p: Seq<char>) -> bool {
    exists|i: int| 0 <= i < es.len() && (#[trigger] es[i]).path@ == p
}

/// Every path of one plan appears in a plan built over a permutation of
/// the same packages.
proof fn lemma_path_covered(
    es1: Seq<TreeEntry>,
    packages1: Seq<Seq<char>>,
    es2: Seq<TreeEntry>,
    packages2: Seq<Seq<char>>,
    init: Seq<char>,
    i: int,
)
    requires
        tree_entries_match(es1, packages1, init),
        tree_entries_match(es2, packages2, init),
        packages1.to_multiset() == packages2.to_multiset(),
        0 <= i < es1.len(),
    ensures
        spec_has_path(es2, es1[i].path@),
{
    packages1.to_multiset_ensures();
    packages2.to_multiset_ensures();
    let n1 = packages1.len() as int;
    let n2 = packages2.len() as int;
    assert(n1 == n2);
    if i < n1 {
        let p = packages1[i];
        assert(packages1.contains(p));
        assert(packages1.to_multiset().count(p) > 0);
        assert(packages2.to_multiset().count(p) > 0);
        assert(packages2.contains(p));
        let j = choose|j: int| 0 <= j < packages2.len() && packages2[j] == p;
        assert(es2[j].path@ == es1[i].path@);
    } else if i == n1 {
        assert(es2[n2].path@ == es1[i].path@);
    } else if i == n1 + 1 {
        assert(es2[n2 + 1].path@ == es1[i].path@);
    } else if i == n1 + 2 {
        assert(es2[n2 + 2].path@ == es1[i].path@);
    } else {
        assert(es2[n2 + 3].path@ == es1[i].path@);
    }
}

/// Law: the serialized tree's paths do not depend on the order of the
/// package list. Plans built over permutations of the same packages (the
/// same names as a multiset) and the same init name have exactly the same
/// paths — so "/bin/init" stands in the tree, and the init package's own
/// name does not, wherever the init spec stands in the input list.
pub proof fn lemma_paths_permutation_invariant(
    es1: Seq<TreeEntry>,
    packages1: Seq<Seq<char>>,
    es2: Seq<TreeEntry>,
    packages2: Seq<Seq<char>>,
    init: Seq<char>,
)
    requires
        tree_entries_match(es1, packages1, init),
        tree_entries_match(es2, packages2, init),
        packages1.to_multiset() == packages2.to_multiset(),
    ensures
        forall|p: Seq<char>| #[trigger] spec_has_path(es1, p) <==> #[trigger] spec_has_path(
            es2,
            p,
        ),
{
    assert forall|p: Seq<char>| #[trigger]
        spec_has_path(es1, p) implies #[trigger] spec_has_path(es2, p) by {
        let i = choose|i: int| 0 <= i < es1.len() && (#[trigger] es1[i]).path@ == p;
        lemma_path_covered(es1, packages1, es2, packages2, init, i);
    }
    assert forall|p: Seq<char>| #[trigger]
        spec_has_path(es2, p) implies #[trigger] spec_has_path(es1, p) by {
        let j = choose|j: int| 0 <= j < es2.len() && (#[trigger] es2[j]).path@ == p;
        lemma_path_covered(es2, packages2, es1, packages1, init, j);
    }
}

/// Law: every node of the serialization plan carries the fixed metadata —
/// owner root, mode 0755, modification time zero, nothing else.
pub proof fn lemma_fixed_metadata(es: Seq<TreeEntry>, packages: Seq<Seq<char>>, init: Seq<char>)
    requires
        tree_entries_match(es, packages, init),
    ensures
        forall|i: int| 0 <= i < es.len() ==> (#[trigger] es[i]).meta == spec_fixed_meta(),
{
    let n = packages.len() as int;
    assert forall|i: int| 0 <= i < es.len() implies (#[trigger] es[i]).meta == spec_fixed_meta() by {
        if i < n {
        } else {
            assert(i == n || i == n + 1 || i == n + 2 || i == n + 3);
        }
    }
}

} // verus!
