use imggen::config::Arch;
use imggen::rootfs::{extra_rustc_args, root_tree_entries, target_triple, NodeKind, TreeEntry};

fn paths(entries: &[TreeEntry]) -> Vec<&str> {
    entries.iter().map(|e| e.path.as_str()).collect()
}

#[test]
fn init_package_lands_at_bin_init() {
    let packages = vec!["rustkrazy_init".to_string()];
    let entries = root_tree_entries(&packages, "rustkrazy_init");
    let ps = paths(&entries);
    assert!(ps.contains(&"/bin/init"));
    assert!(!ps.contains(&"/bin/rustkrazy_init"));
    assert_eq!(ps, vec!["/bin/init", "/bin", "/dev", "/boot", "/"]);
}

#[test]
fn init_is_renamed_wherever_it_stands() {
    for position in 0..3 {
        let mut packages = vec!["alpha".to_string(), "beta".to_string()];
        packages.insert(position, "myinit".to_string());
        let entries = root_tree_entries(&packages, "myinit");
        let ps = paths(&entries);
        assert!(ps.contains(&"/bin/init"));
        assert!(!ps.contains(&"/bin/myinit"));
        assert!(ps.contains(&"/bin/alpha"));
        assert!(ps.contains(&"/bin/beta"));
    }
}

#[test]
fn files_keep_their_staging_sources() {
    let packages = vec!["alpha".to_string(), "myinit".to_string()];
    let entries = root_tree_entries(&packages, "myinit");
    match &entries[0].kind {
        NodeKind::File { source } => assert_eq!(source, "alpha"),
        _ => panic!("expected a file entry"),
    }
    assert_eq!(entries[1].path, "/bin/init");
    match &entries[1].kind {
        NodeKind::File { source } => assert_eq!(source, "myinit"),
        _ => panic!("expected a file entry"),
    }
}

#[test]
fn directories_list_their_children_in_order() {
    let packages = vec!["alpha".to_string(), "myinit".to_string(), "beta".to_string()];
    let entries = root_tree_entries(&packages, "myinit");
    assert_eq!(entries.len(), 7);
    match &entries[3].kind {
        NodeKind::Dir { children } => {
            assert_eq!(children, &vec!["alpha", "init", "beta"]);
        },
        _ => panic!("expected the bin directory"),
    }
    for i in [4, 5] {
        match &entries[i].kind {
            NodeKind::Dir { children } => assert!(children.is_empty()),
            _ => panic!("expected an empty directory"),
        }
    }
    match &entries[6].kind {
        NodeKind::Dir { children } => {
            assert_eq!(children, &vec!["bin", "dev", "boot"]);
        },
        _ => panic!("expected the root directory"),
    }
}

#[test]
fn metadata_is_fixed_and_runs_agree() {
    let packages = vec!["alpha".to_string(), "myinit".to_string()];
    let first = root_tree_entries(&packages, "myinit");
    let second = root_tree_entries(&packages, "myinit");
    assert_eq!(first.len(), second.len());
    for (a, b) in first.iter().zip(second.iter()) {
        assert_eq!(a.path, b.path);
        assert_eq!(a.meta, b.meta);
        assert_eq!(a.meta.uid, 0);
        assert_eq!(a.meta.gid, 0);
        assert_eq!(a.meta.mode, 0o755);
        assert_eq!(a.meta.mtime, 0);
    }
}

#[test]
fn target_triples() {
    assert_eq!(target_triple(Arch::X86_64), "x86_64-unknown-linux-musl");
    assert_eq!(target_triple(Arch::Rpi), "aarch64-unknown-linux-musl");
    assert!(extra_rustc_args(Arch::X86_64).is_empty());
    assert_eq!(
        extra_rustc_args(Arch::Rpi),
        vec!["-C".to_string(), "linker=aarch64-linux-gnu-ld".to_string()]
    );
}
