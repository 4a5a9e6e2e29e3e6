use multirust::shims::{
    bat_shim, manager_file_name, profile_addition, sh_shim, shim_files, tools, windows_path_value,
};
use std::collections::BTreeMap;

#[test]
fn five_tools() {
    assert_eq!(tools(), vec!["rustc", "rustdoc", "cargo", "rust-lldb", "rust-gdb"]);
}

#[test]
fn shim_texts() {
    let b = bat_shim("cargo");
    assert_eq!(b.name, "cargo.bat");
    assert_eq!(b.contents, "@\"%~dp0\\multirust\" proxy cargo %*");
    assert!(!b.executable);
    let s = sh_shim("cargo");
    assert_eq!(s.name, "cargo");
    assert_eq!(s.contents, "#!/bin/sh\n\"`dirname $0`/multirust\" proxy cargo \"$@\"");
    assert!(s.executable);
}

#[test]
fn installing_twice_gives_same_directory() {
    let install = |dir: &mut BTreeMap<String, (String, bool)>| {
        dir.insert(manager_file_name(".exe"), (String::new(), true));
        for f in shim_files() {
            dir.insert(f.name, (f.contents, f.executable));
        }
    };
    let mut dir = BTreeMap::new();
    dir.insert("notes.txt".to_string(), ("keep".to_string(), false));
    install(&mut dir);
    let once = dir.clone();
    install(&mut dir);
    assert_eq!(dir, once);
    assert_eq!(dir.len(), 12);
    assert!(dir["multirust.exe"].1);
    assert_eq!(shim_files().len(), 10);
}

#[test]
fn manager_name_has_suffix() {
    assert_eq!(manager_file_name(""), "multirust");
    assert_eq!(manager_file_name(".exe"), "multirust.exe");
}

#[test]
fn path_registration_texts() {
    assert_eq!(windows_path_value("C:\\m\\bin", "C:\\x"), "C:\\m\\bin;C:\\x");
    assert_eq!(windows_path_value("C:\\m\\bin", ""), "C:\\m\\bin;");
    assert_eq!(
        profile_addition("/home/a/.multirust/bin"),
        "\n# Multirust override:\nexport PATH=\"/home/a/.multirust/bin:$PATH\""
    );
}
