//! Proxy dispatch: what to do with a tool invocation, and the exit status that follows.
use vstd::prelude::*;
use crate::config::{binary_of, command_for_dir_of, library_of, prefix_of, CommandPlan, ConfigStore};
use crate::error::Error;
use crate::text::{same_text, texts};

verus! {

/// The argument that only checks whether a shim is reachable.
pub const SENTINEL: &'static str = "--multirust";

/// What is printed when the sentinel argument is seen.
pub const PROXY_MARKER: &'static str = "Proxied via multirust";

/// The outcome of dispatching a tool invocation.
pub enum Dispatch {
    /// Print the marker and exit with status 0; nothing is started.
    Marker,
    /// Start this command, wait for it, and exit with its status.
    Spawn(CommandPlan),
    /// Report this error and exit with status 1; nothing is started.
    Fail(Error),
}

/// Whether an argument after the tool name is the sentinel.
pub open spec fn has_sentinel(args: Seq<String>) -> bool {
    exists|i: int| 1 <= i < args.len() && #[trigger] args[i]@ == SENTINEL@
}

/// `q` is `p` with `extra` appended to its arguments.
pub open spec fn extended(q: CommandPlan, p: CommandPlan, extra: Seq<String>) -> bool {
    q.program == p.program && q.library_dir == p.library_dir
        && texts(q.args@) == texts(p.args@) + texts(extra)
}

/// The outcome that `command` and the invocation `args` (tool name first) call for.
pub open spec fn dispatch_of(command: Result<CommandPlan, Error>, args: Seq<String>, r: Dispatch) -> bool {
    if has_sentinel(args) {
        r is Marker
    } else {
        match command {
            Ok(p) => r is Spawn && extended(r->Spawn_0, p, args.skip(1)),
            Err(e) => r == Dispatch::Fail(e),
        }
    }
}

impl Dispatch {
    /// The status to exit with at once; `None` when a child is to be run first.
    pub fn immediate_exit(&self) -> (r: Option<i32>)
        ensures
            r == match self {
                Dispatch::Marker => Some(0i32),
                Dispatch::Spawn(_) => None,
                Dispatch::Fail(_) => Some(1i32),
            },
    {
        match self {
            Dispatch::Marker => Some(0),
            Dispatch::Spawn(_) => None,
            Dispatch::Fail(_) => Some(1),
        }
    }
}

/// Decides what an invocation does: the sentinel anywhere after the tool name wins;
/// otherwise the command runs with the remaining arguments appended verbatim, or
/// its construction error is reported.
pub fn dispatch(command: Result<CommandPlan, Error>, args: &Vec<String>) -> (r: Dispatch)
    requires
        args@.len() >= 1,
    ensures
        dispatch_of(command, args@, r),
{
    let mut i: usize = 1;
    while i < args.len()
        invariant
            1 <= i <= args@.len(),
            forall|j: int| 1 <= j < i ==> #[trigger] args@[j]@ != SENTINEL@,
        decreases args@.len() - i,
    {
        if same_text(args[i].as_str(), SENTINEL) {
            return Dispatch::Marker;
        }
        i = i + 1;
    }
    match command {
        Ok(p) => {
            let mut p = p;
            let ghost p0 = p;
            let mut k: usize = 1;
            while k < args.len()
                invariant
                    1 <= k <= args@.len(),
                    p.program == p0.program,
                    p.library_dir == p0.library_dir,
                    texts(p.args@) == texts(p0.args@) + texts(args@.subrange(1, k as int)),
                decreases args@.len() - k,
            {
                let ghost before = p.args@;
                p.args.push(args[k].clone());
                assert(texts(p.args@) =~= texts(before).push(args@[k as int]@));
                assert(texts(args@.subrange(1, k + 1)) =~= texts(args@.subrange(1, k as int)).push(args@[k as int]@));
                k = k + 1;
            }
            assert(args@.subrange(1, k as int) =~= args@.skip(1));
            Dispatch::Spawn(p)
        },
        Err(e) => Dispatch::Fail(e),
    }
}

/// Direct run: `args[0]` is run from toolchain `name`, which must be among `installed`.
pub fn run(cfg: &ConfigStore, name: &str, args: &Vec<String>, installed: &Vec<String>) -> (r: Dispatch)
    requires
        args@.len() >= 1,
    ensures
        has_sentinel(args@) ==> r is Marker,
        exists|c: Result<CommandPlan, Error>|
            dispatch_of(c, args@, r) && match c {
                Ok(p) => texts(installed@).contains(name@)
                    && p.program@ == binary_of(
                        prefix_of(cfg.home@, name@),
                        args@[0]@,
                    ) && p.library_dir@ == library_of(prefix_of(cfg.home@, name@))
                    && p.args@.len() == 0,
                Err(e) => !texts(installed@).contains(name@)
                    && e is ToolchainNotInstalled && e->ToolchainNotInstalled_name@ == name@,
            },
{
    let t = cfg.get_toolchain(name);
    let c = t.create_command(args[0].as_str(), installed);
    dispatch(c, args)
}

/// Directory proxy: `args[0]` is run from the toolchain in effect in `directory`.
pub fn proxy(cfg: &ConfigStore, directory: &str, args: &Vec<String>, installed: &Vec<String>) -> (r: Dispatch)
    requires
        cfg.wf(),
        args@.len() >= 1,
    ensures
        has_sentinel(args@) ==> r is Marker,
        exists|c: Result<CommandPlan, Error>|
            dispatch_of(c, args@, r) && command_for_dir_of(cfg, directory@, args@[0]@, installed@, c),
{
    let c = cfg.create_command_for_dir(directory, args[0].as_str(), installed);
    dispatch(c, args)
}

/// The manager's exit status after a child ends: the child's code, or 1 when it
/// ended without one (killed by a signal).
pub fn exit_status(code: Option<i32>) -> (r: i32)
    ensures
        r == match code {
            Some(c) => c,
            None => 1i32,
        },
{
    match code {
        Some(c) => c,
        None => 1,
    }
}

} // verus!
