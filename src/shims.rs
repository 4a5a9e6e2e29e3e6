//! Shim generation: one POSIX script and one batch script per proxied tool, the
//! manager binary beside them, and the PATH text that registers their directory.
use vstd::prelude::*;
use crate::text::{joined, texts};

verus! {

/// A generated file of the managed `bin` directory.
pub struct ShimFile {
    pub name: String,
    pub contents: String,
    pub executable: bool,
}

/// What a file of the `bin` directory holds: its text and whether it is executable.
pub type FileView = (Seq<char>, bool);

/// The proxied tools, in the order their shims are written.
pub open spec fn tool_names() -> Seq<Seq<char>> {
    seq!["rustc"@, "rustdoc"@, "cargo"@, "rust-lldb"@, "rust-gdb"@]
}

pub open spec fn bat_name(t: Seq<char>) -> Seq<char> {
    t + ".bat"@
}

pub open spec fn bat_text(t: Seq<char>) -> Seq<char> {
    "@\"%~dp0\\multirust\" proxy "@ + t + " %*"@
}

pub open spec fn sh_text(t: Seq<char>) -> Seq<char> {
    "#!/bin/sh\n\"`dirname $0`/multirust\" proxy "@ + t + " \"$@\""@
}

/// File name of the manager binary for a platform's executable suffix.
pub open spec fn manager_name(exe_suffix: Seq<char>) -> Seq<char> {
    "multirust"@ + exe_suffix
}

/// The shim writes, in order: for each tool its batch script, then its POSIX script.
pub open spec fn shim_plan() -> Seq<(Seq<char>, FileView)> {
    Seq::new(
        10,
        |i: int|
            if i % 2 == 0 {
                (bat_name(tool_names()[i / 2]), (bat_text(tool_names()[i / 2]), false))
            } else {
                (tool_names()[i / 2], (sh_text(tool_names()[i / 2]), true))
            },
    )
}

pub open spec fn file_entry(f: ShimFile) -> (Seq<char>, FileView) {
    (f.name@, (f.contents@, f.executable))
}

/// The directory after each write of `w` in turn; a write replaces a file of the same name.
pub open spec fn apply_writes(d: Map<Seq<char>, FileView>, w: Seq<(Seq<char>, FileView)>) -> Map<Seq<char>, FileView>
    decreases w.len(),
{
    if w.len() == 0 {
        d
    } else {
        apply_writes(d, w.drop_last()).insert(w.last().0, w.last().1)
    }
}

/// The `bin` directory after an install into `d`: the manager binary (its bytes come
/// from the running executable and are not modelled), then every shim.
pub open spec fn install_effect(d: Map<Seq<char>, FileView>, exe_suffix: Seq<char>) -> Map<Seq<char>, FileView> {
    apply_writes(d.insert(manager_name(exe_suffix), (Seq::empty(), true)), shim_plan())
}

proof fn lemma_apply_union(d: Map<Seq<char>, FileView>, w: Seq<(Seq<char>, FileView)>)
    ensures
        apply_writes(d, w) == d.union_prefer_right(apply_writes(Map::empty(), w)),
    decreases w.len(),
{
    if w.len() == 0 {
        assert(d.union_prefer_right(Map::empty()) =~= d);
    } else {
        lemma_apply_union(d, w.drop_last());
        let a = apply_writes(Map::<Seq<char>, FileView>::empty(), w.drop_last());
        assert(d.union_prefer_right(a).insert(w.last().0, w.last().1)
            =~= d.union_prefer_right(a.insert(w.last().0, w.last().1)));
    }
}

proof fn lemma_plan_names()
    ensures
        forall|i: int| 0 <= i < 10 ==> (#[trigger] shim_plan()[i]).0.len() > 0 && shim_plan()[i].0[0] != 'm',
        forall|i: int, j: int| 0 <= i < j < 10 ==> (#[trigger] shim_plan()[i]).0 != (#[trigger] shim_plan()[j]).0,
{
    reveal_strlit("rustc");
    reveal_strlit("rustdoc");
    reveal_strlit("cargo");
    reveal_strlit("rust-lldb");
    reveal_strlit("rust-gdb");
    reveal_strlit(".bat");
    let p = shim_plan();
    assert forall|i: int| 0 <= i < 10 implies (#[trigger] p[i]).0.len() > 0 && p[i].0[0] != 'm' by {
        let t = tool_names()[i / 2];
        assert(t.len() > 0 && t[0] != 'm');
        if i % 2 == 0 {
            assert(bat_name(t)[0] == t[0]);
        }
    }
    assert forall|i: int, j: int| 0 <= i < j < 10 implies (#[trigger] p[i]).0 != (#[trigger] p[j]).0 by {
        let a = p[i].0;
        let b = p[j].0;
        if i % 2 == 0 && j % 2 == 0 {
            assert(a.len() - 4 != b.len() - 4 || a[2] != b[2] || a[0] != b[0] || a[5] != b[5]);
        } else if i % 2 == 1 && j % 2 == 1 {
            assert(a.len() != b.len() || a[0] != b[0] || a[4] != b[4]);
        } else if i % 2 == 0 {
            assert(a.len() != b.len() || a[0] != b[0] || a[5] != b[5]);
        } else {
            assert(a.len() != b.len() || a[0] != b[0] || a[5] != b[5]);
        }
    }
}

/// Installing twice leaves the `bin` directory as installing once does; after an
/// install it holds the executable manager binary and, for each of the five tools,
/// exactly one POSIX script and one batch script, under ten distinct names.
pub proof fn lemma_install_twice(d: Map<Seq<char>, FileView>, exe_suffix: Seq<char>)
    ensures
        install_effect(install_effect(d, exe_suffix), exe_suffix) == install_effect(d, exe_suffix),
        install_effect(d, exe_suffix)[manager_name(exe_suffix)] == (Seq::<char>::empty(), true),
        forall|i: int| 0 <= i < 5 ==> {
            let t = #[trigger] tool_names()[i];
            install_effect(d, exe_suffix)[t] == (sh_text(t), true)
                && install_effect(d, exe_suffix)[bat_name(t)] == (bat_text(t), false)
        },
        forall|i: int, j: int| 0 <= i < j < 10 ==> (#[trigger] shim_plan()[i]).0 != (#[trigger] shim_plan()[j]).0,
{
    let b = manager_name(exe_suffix);
    let x: FileView = (Seq::empty(), true);
    let p = shim_plan();
    let a = apply_writes(Map::<Seq<char>, FileView>::empty(), p);
    lemma_apply_union(d.insert(b, x), p);
    let once = install_effect(d, exe_suffix);
    lemma_apply_union(once.insert(b, x), p);
    assert(once.insert(b, x).union_prefer_right(a) =~= once);
    lemma_plan_names();
    lemma_plan_writes(10);
    assert(p.take(10) =~= p);
    reveal_strlit("multirust");
    assert(b[0] == "multirust"@[0]);
    assert(!a.contains_key(b)) by {
        if a.contains_key(b) {
            let k = choose|k: int| 0 <= k < 10 && #[trigger] p[k].0 == b;
            assert(p[k].0[0] != 'm');
        }
    }
    assert(once == d.insert(b, x).union_prefer_right(a));
    assert forall|i: int| 0 <= i < 5 implies {
        let t = #[trigger] tool_names()[i];
        once[t] == (sh_text(t), true) && once[bat_name(t)] == (bat_text(t), false)
    } by {
        assert(p[2 * i + 1].0 == tool_names()[i]);
        assert(p[2 * i].0 == bat_name(tool_names()[i]));
        lemma_plan_value(2 * i);
        lemma_plan_value(2 * i + 1);
        assert(a.contains_key(p[2 * i].0));
        assert(a.contains_key(p[2 * i + 1].0));
    }
}

/// Each name written by the plan's first `n` writes, and only those, is in the result.
proof fn lemma_plan_writes(n: int)
    requires
        0 <= n <= 10,
    ensures
        forall|k: Seq<char>|
            #[trigger] apply_writes(Map::<Seq<char>, FileView>::empty(), shim_plan().take(n)).contains_key(k)
                <==> exists|i: int| 0 <= i < n && #[trigger] shim_plan()[i].0 == k,
    decreases n,
{
    let p = shim_plan();
    if n == 0 {
        assert(p.take(0).len() == 0);
    } else {
        lemma_plan_writes(n - 1);
        assert(p.take(n).drop_last() =~= p.take(n - 1));
        assert forall|k: Seq<char>|
            #[trigger] apply_writes(Map::<Seq<char>, FileView>::empty(), p.take(n)).contains_key(k)
                <==> exists|i: int| 0 <= i < n && #[trigger] p[i].0 == k by {
            let m1 = apply_writes(Map::<Seq<char>, FileView>::empty(), p.take(n - 1));
            assert(apply_writes(Map::<Seq<char>, FileView>::empty(), p.take(n)) == m1.insert(p[n - 1].0, p[n - 1].1));
            if m1.contains_key(k) {
                let i = choose|i: int| 0 <= i < n - 1 && #[trigger] p[i].0 == k;
                assert(0 <= i < n && p[i].0 == k);
            }
            if exists|i: int| 0 <= i < n && #[trigger] p[i].0 == k {
                let i = choose|i: int| 0 <= i < n && #[trigger] p[i].0 == k;
                if i < n - 1 {
                    assert(exists|i2: int| 0 <= i2 < n - 1 && #[trigger] p[i2].0 == k);
                }
            }
        }
    }
    if n == 10 {
        assert(p.take(10) =~= p);
    }
}

/// Write `i` of the plan is the one that stands at the end: no later write has its name.
proof fn lemma_plan_value(i: int)
    requires
        0 <= i < 10,
    ensures
        apply_writes(Map::<Seq<char>, FileView>::empty(), shim_plan())[shim_plan()[i].0] == shim_plan()[i].1,
{
    lemma_plan_names();
    lemma_plan_value_upto(i, 10);
    assert(shim_plan().take(10) =~= shim_plan());
}

proof fn lemma_plan_value_upto(i: int, n: int)
    requires
        0 <= i < n <= 10,
        forall|a: int, b: int| 0 <= a < b < 10 ==> (#[trigger] shim_plan()[a]).0 != (#[trigger] shim_plan()[b]).0,
    ensures
        apply_writes(Map::<Seq<char>, FileView>::empty(), shim_plan().take(n))[shim_plan()[i].0] == shim_plan()[i].1,
    decreases n,
{
    let p = shim_plan();
    assert(p.take(n).drop_last() =~= p.take(n - 1));
    assert(p.take(n).last() == p[n - 1]);
    if i < n - 1 {
        lemma_plan_value_upto(i, n - 1);
        assert(p[i].0 != p[n - 1].0);
    }
}

/// The proxied tools.
pub fn tools() -> (r: Vec<String>)
    ensures
        texts(r@) == tool_names(),
{
    let r = vec![
        String::from_str("rustc"),
        String::from_str("rustdoc"),
        String::from_str("cargo"),
        String::from_str("rust-lldb"),
        String::from_str("rust-gdb"),
    ];
    assert(texts(r@) =~= tool_names());
    r
}

/// The batch script that forwards `tool` to the directory proxy.
pub fn bat_shim(tool: &str) -> (r: ShimFile)
    ensures
        file_entry(r) == (bat_name(tool@), (bat_text(tool@), false)),
{
    let text = joined("@\"%~dp0\\multirust\" proxy ", tool);
    ShimFile { name: joined(tool, ".bat"), contents: joined(text.as_str(), " %*"), executable: false }
}

/// The POSIX script that forwards `tool` to the directory proxy; it is made executable.
pub fn sh_shim(tool: &str) -> (r: ShimFile)
    ensures
        file_entry(r) == (tool@, (sh_text(tool@), true)),
{
    let text = joined("#!/bin/sh\n\"`dirname $0`/multirust\" proxy ", tool);
    ShimFile {
        name: String::from_str(tool),
        contents: joined(text.as_str(), " \"$@\""),
        executable: true,
    }
}

/// Every shim to write, in order.
pub fn shim_files() -> (r: Vec<ShimFile>)
    ensures
        r@.map_values(|f: ShimFile| file_entry(f)) == shim_plan(),
{
    let names = tools();
    let mut r: Vec<ShimFile> = Vec::new();
    let mut i: usize = 0;
    assert(texts(names@).len() == names@.len());
    while i < names.len()
        invariant
            texts(names@) == tool_names(),
            names@.len() == 5,
            shim_plan().len() == 10,
            i <= names@.len(),
            r@.len() == 2 * i,
            forall|k: int| 0 <= k < 2 * i ==> file_entry(#[trigger] r@[k]) == shim_plan()[k],
        decreases names@.len() - i,
    {
        assert(names@[i as int]@ == tool_names()[i as int]);
        r.push(bat_shim(names[i].as_str()));
        r.push(sh_shim(names[i].as_str()));
        proof {
            let j = 2 * i as int;
            assert(j % 2 == 0 && j / 2 == i && (j + 1) % 2 == 1 && (j + 1) / 2 == i) by (nonlinear_arith)
                requires j == 2 * i;
            assert(file_entry(r@[j]) == shim_plan()[j]);
            assert(file_entry(r@[j + 1]) == shim_plan()[j + 1]);
        }
        i = i + 1;
    }
    assert(shim_plan().len() == 10);
    assert(r@.map_values(|f: ShimFile| file_entry(f)) =~= shim_plan());
    r
}

/// File name of the manager binary in the `bin` directory.
pub fn manager_file_name(exe_suffix: &str) -> (r: String)
    ensures
        r@ == manager_name(exe_suffix@),
{
    joined("multirust", exe_suffix)
}

/// The user's PATH value with `bin_dir` put first, for the registry-held PATH.
pub fn windows_path_value(bin_dir: &str, old_path: &str) -> (r: String)
    ensures
        r@ == bin_dir@ + ";"@ + old_path@,
{
    let a = joined(bin_dir, ";");
    joined(a.as_str(), old_path)
}

/// The lines appended to a POSIX shell profile to put `bin_dir` first on the PATH.
pub fn profile_addition(bin_dir: &str) -> (r: String)
    ensures
        r@ == "\n# Multirust override:\nexport PATH=\""@ + bin_dir@ + ":$PATH\""@,
{
    let a = joined("\n# Multirust override:\nexport PATH=\"", bin_dir);
    joined(a.as_str(), ":$PATH\"")
}

} // verus!
