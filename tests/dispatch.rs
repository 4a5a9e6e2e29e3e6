use multirust::config::{CommandPlan, ConfigStore};
use multirust::error::Error;
use multirust::proxy::{dispatch, exit_status, proxy, run, Dispatch, PROXY_MARKER};

fn args(xs: &[&str]) -> Vec<String> {
    xs.iter().map(|x| x.to_string()).collect()
}

fn plan() -> CommandPlan {
    CommandPlan { program: "/t/bin/rustc".to_string(), library_dir: "/t/lib".to_string(), args: Vec::new() }
}

#[test]
fn sentinel_never_spawns() {
    let d = dispatch(Ok(plan()), &args(&["rustc", "-O", "--multirust"]));
    assert!(matches!(d, Dispatch::Marker));
    assert_eq!(d.immediate_exit(), Some(0));
    assert_eq!(PROXY_MARKER, "Proxied via multirust");
}

#[test]
fn sentinel_wins_over_construction_error() {
    let d = dispatch(Err(Error::NoDefaultToolchain), &args(&["rustc", "--multirust"]));
    assert!(matches!(d, Dispatch::Marker));
}

#[test]
fn sentinel_as_tool_name_is_not_the_sentinel() {
    let d = dispatch(Ok(plan()), &args(&["--multirust"]));
    assert!(matches!(d, Dispatch::Spawn(_)));
}

#[test]
fn arguments_forwarded_verbatim() {
    match dispatch(Ok(plan()), &args(&["rustc", "-O", "main.rs", "--", "x y"])) {
        Dispatch::Spawn(p) => {
            assert_eq!(p.program, "/t/bin/rustc");
            assert_eq!(p.library_dir, "/t/lib");
            assert_eq!(p.args, args(&["-O", "main.rs", "--", "x y"]));
        }
        _ => panic!("expected a spawn"),
    }
}

#[test]
fn construction_error_is_reported() {
    let d = dispatch(Err(Error::NoDefaultToolchain), &args(&["rustc", "-V"]));
    assert!(matches!(d, Dispatch::Fail(Error::NoDefaultToolchain)));
    assert_eq!(d.immediate_exit(), Some(1));
}

#[test]
fn exit_status_of_child() {
    assert_eq!(exit_status(Some(0)), 0);
    assert_eq!(exit_status(Some(101)), 101);
    assert_eq!(exit_status(None), 1);
}

#[test]
fn direct_run_uses_named_toolchain() {
    let mut cfg = ConfigStore::new("/h".to_string());
    cfg.set_default("stable".to_string());
    match run(&cfg, "nightly", &args(&["cargo", "build"]), &args(&["nightly"])) {
        Dispatch::Spawn(p) => {
            assert_eq!(p.program, "/h/toolchains/nightly/bin/cargo");
            assert_eq!(p.args, args(&["build"]));
        }
        _ => panic!("expected a spawn"),
    }
    assert!(matches!(
        run(&cfg, "nightly", &args(&["cargo"]), &args(&["stable"])),
        Dispatch::Fail(Error::ToolchainNotInstalled { .. })
    ));
}

#[test]
fn directory_proxy_resolves_override() {
    let mut cfg = ConfigStore::new("/h".to_string());
    cfg.set_default("stable".to_string());
    cfg.set_override("/p".to_string(), "nightly".to_string());
    let inst = args(&["stable", "nightly"]);
    match proxy(&cfg, "/p", &args(&["rustdoc", "lib.rs"]), &inst) {
        Dispatch::Spawn(p) => {
            assert_eq!(p.program, "/h/toolchains/nightly/bin/rustdoc");
            assert_eq!(p.library_dir, "/h/toolchains/nightly/lib");
        }
        _ => panic!("expected a spawn"),
    }
    match proxy(&cfg, "/q", &args(&["rustdoc"]), &inst) {
        Dispatch::Spawn(p) => assert_eq!(p.program, "/h/toolchains/stable/bin/rustdoc"),
        _ => panic!("expected a spawn"),
    }
    assert!(matches!(proxy(&cfg, "/p", &args(&["rustc", "--multirust"]), &args(&[])), Dispatch::Marker));
}
