use imggen::config::{
    init_present, parse_arch, require_git_name, resolve_git_name, trim_git, validate_run, Arch,
};
use imggen::ImageError;

#[test]
fn arch_tags() {
    assert_eq!(parse_arch("x86_64").unwrap(), Arch::X86_64);
    assert_eq!(parse_arch("rpi").unwrap(), Arch::Rpi);
    assert_eq!(parse_arch("armv7").unwrap_err(), ImageError::InvalidArchitecture);
    assert_eq!(parse_arch("").unwrap_err(), ImageError::InvalidArchitecture);
}

#[test]
fn git_suffix_trimming() {
    assert_eq!(trim_git("init.git"), "init");
    assert_eq!(trim_git("init.git.git"), "init");
    assert_eq!(trim_git("init"), "init");
    assert_eq!(trim_git("gitinit"), "gitinit");
    assert_eq!(trim_git(".git"), "");
}

#[test]
fn git_spec_name_from_url() {
    assert_eq!(
        resolve_git_name("https://github.com/rustkrazy/init.git").unwrap(),
        "init"
    );
    assert_eq!(
        resolve_git_name("https://github.com/rustkrazy/init").unwrap(),
        "init"
    );
}

#[test]
fn git_spec_name_override() {
    assert_eq!(
        resolve_git_name("https://github.com/foo/bar.git%mybin").unwrap(),
        "mybin"
    );
    // Only the part up to the next separator names the binary.
    assert_eq!(
        resolve_git_name("https://github.com/foo/bar%mybin%rest").unwrap(),
        "mybin"
    );
    // The override is taken verbatim, without suffix trimming.
    assert_eq!(
        resolve_git_name("https://github.com/foo/bar%name.git").unwrap(),
        "name.git"
    );
}

#[test]
fn invalid_git_specs_have_no_name() {
    assert!(resolve_git_name("not a url").is_none());
    assert!(resolve_git_name("mailto:user@example.com").is_none());
    assert!(resolve_git_name("not a url%override").is_none());
    assert_eq!(
        require_git_name("not a url").unwrap_err(),
        ImageError::InvalidPackageSpec
    );
    assert_eq!(
        require_git_name("https://github.com/foo/bar.git").unwrap(),
        "bar"
    );
}

#[test]
fn init_lookup_covers_both_sources() {
    let crates = vec!["app".to_string(), "rustkrazy_init".to_string()];
    let none: Vec<String> = Vec::new();
    assert!(init_present(&crates, &none, "rustkrazy_init"));
    assert!(!init_present(&crates, &none, "other"));
    let git = vec!["https://github.com/rustkrazy/init.git".to_string()];
    assert!(init_present(&none, &git, "init"));
    assert!(!init_present(&none, &git, "init.git"));
}

#[test]
fn missing_init_fails_before_any_output() {
    let crates = vec!["app".to_string()];
    let git: Vec<String> = Vec::new();
    let r = validate_run("x86_64", &crates, &git, "rustkrazy_init", false, Some(1 << 31));
    assert_eq!(r.unwrap_err(), ImageError::InitNotFound);
}

#[test]
fn file_targets_need_a_size() {
    let crates = vec!["rustkrazy_init".to_string()];
    let git: Vec<String> = Vec::new();
    let r = validate_run("x86_64", &crates, &git, "rustkrazy_init", false, None);
    assert_eq!(r.unwrap_err(), ImageError::MissingSize);
    let r = validate_run("x86_64", &crates, &git, "rustkrazy_init", true, None);
    assert_eq!(r.unwrap(), Arch::X86_64);
}

#[test]
fn architecture_is_checked_first() {
    let crates: Vec<String> = Vec::new();
    let git: Vec<String> = Vec::new();
    let r = validate_run("mips", &crates, &git, "rustkrazy_init", false, None);
    assert_eq!(r.unwrap_err(), ImageError::InvalidArchitecture);
}

#[test]
fn valid_configuration_passes() {
    let crates = vec!["rustkrazy_init".to_string()];
    let git = vec!["https://github.com/foo/extra.git".to_string()];
    let r = validate_run("rpi", &crates, &git, "rustkrazy_init", false, Some(1 << 31));
    assert_eq!(r.unwrap(), Arch::Rpi);
}
