use multirust::config::{list_toolchains, ConfigStore, METADATA_VERSION};
use multirust::error::Error;
use multirust::overrides::OverrideStore;

fn s(x: &str) -> String {
    x.to_string()
}

fn installed(names: &[&str]) -> Vec<String> {
    names.iter().map(|n| n.to_string()).collect()
}

#[test]
fn override_wins_over_default() {
    let mut cfg = ConfigStore::new(s("/home/alice/.multirust"));
    cfg.set_default(s("stable"));
    cfg.set_override(s("/home/alice/proj"), s("nightly"));
    let (t, why) = cfg.resolve_effective("/home/alice/proj").ok().unwrap();
    assert_eq!(t.name, "nightly");
    assert_eq!(t.prefix, "/home/alice/.multirust/toolchains/nightly");
    assert_eq!(why.unwrap(), "directory override for '/home/alice/proj'");
}

#[test]
fn override_used_for_compiler_in_pinned_directory() {
    let mut cfg = ConfigStore::new(s("/home/alice/.multirust"));
    cfg.set_default(s("stable"));
    cfg.set_override(s("/home/alice/proj"), s("nightly"));
    let plan = cfg
        .create_command_for_dir("/home/alice/proj", "compiler", &installed(&["stable", "nightly"]))
        .ok()
        .unwrap();
    assert_eq!(plan.program, "/home/alice/.multirust/toolchains/nightly/bin/compiler");
    assert_eq!(plan.library_dir, "/home/alice/.multirust/toolchains/nightly/lib");
    assert!(plan.args.is_empty());
}

#[test]
fn default_used_without_override() {
    let mut cfg = ConfigStore::new(s("/h"));
    cfg.set_default(s("stable"));
    let (t, why) = cfg.resolve_effective("/tmp").ok().unwrap();
    assert_eq!(t.name, "stable");
    assert!(why.is_none());
}

#[test]
fn no_default_fails() {
    let cfg = ConfigStore::new(s("/h"));
    assert!(matches!(cfg.resolve_effective("/tmp"), Err(Error::NoDefaultToolchain)));
    assert!(matches!(
        cfg.create_command_for_dir("/tmp", "rustc", &installed(&["stable"])),
        Err(Error::NoDefaultToolchain)
    ));
}

#[test]
fn override_is_exact_directory_only() {
    let mut cfg = ConfigStore::new(s("/h"));
    cfg.set_default(s("stable"));
    cfg.set_override(s("/home/alice/proj"), s("nightly"));
    let (t, _) = cfg.resolve_effective("/home/alice/proj/src").ok().unwrap();
    assert_eq!(t.name, "stable");
}

#[test]
fn removed_toolchain_still_named_by_override_fails() {
    let mut cfg = ConfigStore::new(s("/h"));
    cfg.set_default(s("stable"));
    cfg.set_override(s("/work"), s("nightly"));
    // "nightly" has been removed from disk: only "stable" is left.
    match cfg.create_command_for_dir("/work", "rustc", &installed(&["stable"])) {
        Err(Error::ToolchainNotInstalled { name }) => assert_eq!(name, "nightly"),
        _ => panic!("expected a missing-toolchain error"),
    }
    let e = Error::ToolchainNotInstalled { name: s("nightly") };
    assert_eq!(e.message(), "toolchain 'nightly' is not installed");
}

#[test]
fn remove_override_twice() {
    let mut cfg = ConfigStore::new(s("/h"));
    cfg.set_override(s("/a"), s("nightly"));
    cfg.set_override(s("/b"), s("beta"));
    cfg.remove_override("/a");
    cfg.remove_override("/a");
    assert!(cfg.find_override("/a").is_none());
    assert_eq!(cfg.list_overrides(), vec![s("/b")]);
}

#[test]
fn store_remove_reports_presence() {
    let mut st = OverrideStore::new();
    st.set(s("/x"), s("stable"), s("why"));
    assert!(st.remove("/x"));
    assert!(!st.remove("/x"));
    assert!(st.find("/x").is_none());
}

#[test]
fn set_override_replaces() {
    let mut cfg = ConfigStore::new(s("/h"));
    cfg.set_override(s("/a"), s("nightly"));
    cfg.set_override(s("/a"), s("beta"));
    let (t, _) = cfg.find_override("/a").unwrap();
    assert_eq!(t.name, "beta");
    assert_eq!(cfg.list_overrides().len(), 1);
}

#[test]
fn list_overrides_sorted_whatever_insertion_order() {
    let mut a = ConfigStore::new(s("/h"));
    for d in ["/z", "/a/b", "/a", "/m"] {
        a.set_override(s(d), s("stable"));
    }
    let mut b = ConfigStore::new(s("/h"));
    for d in ["/m", "/a", "/z", "/a/b"] {
        b.set_override(s(d), s("stable"));
    }
    let want = vec![s("/a"), s("/a/b"), s("/m"), s("/z")];
    assert_eq!(a.list_overrides(), want);
    assert_eq!(b.list_overrides(), want);
}

#[test]
fn list_toolchains_sorted() {
    let got = list_toolchains(vec![s("stable"), s("beta"), s("nightly"), s("1.0.0")]);
    assert_eq!(got, vec![s("1.0.0"), s("beta"), s("nightly"), s("stable")]);
    assert!(list_toolchains(Vec::new()).is_empty());
}

#[test]
fn metadata_version_gate() {
    let mut cfg = ConfigStore::new(s("/h"));
    assert!(cfg.check_metadata_version().is_ok());
    assert_eq!(METADATA_VERSION, "2");
    cfg.metadata_version = s("1");
    match cfg.check_metadata_version() {
        Err(Error::MetadataVersionMismatch { found }) => assert_eq!(found, "1"),
        _ => panic!("expected a version mismatch"),
    }
}

#[test]
fn sysroot_and_default_queries() {
    let mut cfg = ConfigStore::new(s("/h"));
    assert!(cfg.find_default().is_none());
    cfg.set_default(s("beta"));
    let t = cfg.find_default().unwrap();
    assert_eq!(t.prefix, "/h/toolchains/beta");
    assert!(t.is_installed(&installed(&["beta"])));
    assert!(!t.is_installed(&installed(&["stable"])));
}

#[test]
fn error_messages() {
    assert_eq!(Error::NoDefaultToolchain.message(), "no default toolchain configured");
    assert_eq!(
        Error::MetadataVersionMismatch { found: s("1") }.message(),
        "metadata version mismatch: expected 2, found 1"
    );
    assert_eq!(Error::RunningCommand { name: s("rustc") }.message(), "could not run command: rustc");
    assert_eq!(Error::PermissionDenied.message(), "permission denied");
    assert_eq!(Error::Filesystem { what: s("bin") }.message(), "could not update bin");
    assert_eq!(Error::LocatingWorkingDir.message(), "could not locate working directory");
    assert_eq!(Error::UserAborted.message(), "aborted by user");
}

#[test]
fn resolve_installed_rejects_dangling_pin() {
    let mut cfg = ConfigStore::new(s("/h"));
    cfg.set_default(s("stable"));
    cfg.set_override(s("/home/alice/proj"), s("nightly"));
    match cfg.resolve_installed("/home/alice/proj", &installed(&["stable"])) {
        Err(Error::ToolchainNotInstalled { name }) => assert_eq!(name, "nightly"),
        _ => panic!("expected a missing-toolchain error"),
    }
    let t = cfg.resolve_installed("/tmp", &installed(&["stable"])).ok().unwrap();
    assert_eq!(t.name, "stable");
    assert_eq!(t.prefix, "/h/toolchains/stable");
    let t = cfg.resolve_installed("/home/alice/proj", &installed(&["stable", "nightly"])).ok().unwrap();
    assert_eq!(t.name, "nightly");
    let empty = ConfigStore::new(s("/h"));
    assert!(matches!(empty.resolve_installed("/tmp", &installed(&["stable"])), Err(Error::NoDefaultToolchain)));
}
