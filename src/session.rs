//! Front-end decisions: which checks a subcommand needs, how answers and
//! notifications are read, and the text of listings and reports.
use vstd::prelude::*;
use crate::config::{ConfigStore, METADATA_VERSION};
use crate::error::Error;
use crate::text::{joined, same_text, texts};

verus! {

/// How loud a notification is.
pub enum Level {
    Verbose,
    Normal,
    Info,
    Warn,
    Error,
}

/// Where a notification goes.
pub enum Route {
    /// Dropped.
    Silent,
    /// Printed as it is on standard output.
    Stdout,
    /// Printed on standard error after an `info:` prefix.
    Info,
    /// Printed on standard error after a `warning:` prefix.
    Warn,
    /// Printed on standard error after an `error:` prefix.
    Error,
}

/// The sink every component reports through; its verbosity is fixed at start.
pub struct Notifier {
    pub verbose: bool,
}

impl Notifier {
    /// Verbose notifications show only when verbose; every other level always shows.
    pub fn route(&self, level: Level) -> (r: Route)
        ensures
            r == match level {
                Level::Verbose => if self.verbose { Route::Stdout } else { Route::Silent },
                Level::Normal => Route::Stdout,
                Level::Info => Route::Info,
                Level::Warn => Route::Warn,
                Level::Error => Route::Error,
            },
    {
        match level {
            Level::Verbose => if self.verbose { Route::Stdout } else { Route::Silent },
            Level::Normal => Route::Stdout,
            Level::Info => Route::Info,
            Level::Warn => Route::Warn,
            Level::Error => Route::Error,
        }
    }
}

/// Subcommands that run whatever the stored schema version is.
pub open spec fn version_exempt(s: Seq<char>) -> bool {
    s == "upgrade-data"@ || s == "delete-data"@ || s == "install"@ || s == "uninstall"@
}

/// Whether subcommand `sub` must pass the schema version check first.
pub fn needs_metadata_check(sub: Option<&str>) -> (r: bool)
    ensures
        r == match sub {
            Some(s) => !version_exempt(s@),
            None => false,
        },
{
    match sub {
        Some(s) => !(same_text(s, "upgrade-data") || same_text(s, "delete-data") || same_text(s, "install")
            || same_text(s, "uninstall")),
        None => false,
    }
}

/// The schema version gate before subcommand `sub`: it fails only for a subcommand
/// that needs the check when the stored version is not the one this program reads.
pub fn check_gate(cfg: &ConfigStore, sub: Option<&str>) -> (r: Result<(), Error>)
    ensures
        r.is_err() <==> (match sub {
            Some(s) => !version_exempt(s@),
            None => false,
        } && cfg.metadata_version@ != METADATA_VERSION@),
        match r {
            Ok(_) => true,
            Err(e) => e == (Error::MetadataVersionMismatch { found: cfg.metadata_version }),
        },
{
    if needs_metadata_check(sub) {
        cfg.check_metadata_version()
    } else {
        Ok(())
    }
}

/// Whether subcommand `sub` is preceded by the check that shims are reachable.
pub fn needs_setup_check(sub: Option<&str>) -> (r: bool)
    ensures
        r == match sub {
            Some(s) => !(s@ == "install"@ || s@ == "proxy"@),
            None => true,
        },
{
    match sub {
        Some(s) => !(same_text(s, "install") || same_text(s, "proxy")),
        None => true,
    }
}

/// An advisory warning about the installation.
pub enum SetupWarning {
    /// The manager is not installed for this user.
    NotInstalled,
    /// The manager is installed but its `bin` directory is not reached through the PATH.
    NotOnPath,
}

/// The warning due when shims are not reachable: which one depends on whether the
/// manager binary is in its `bin` directory. Nothing is due when shims work.
pub fn setup_warning(proxies_work: bool, installed: bool) -> (r: Option<SetupWarning>)
    ensures
        r == if proxies_work {
            None
        } else if installed {
            Some(SetupWarning::NotOnPath)
        } else {
            Some(SetupWarning::NotInstalled)
        },
{
    if proxies_work {
        None
    } else if installed {
        Some(SetupWarning::NotOnPath)
    } else {
        Some(SetupWarning::NotInstalled)
    }
}

impl SetupWarning {
    /// The warning's text; `bin_dir` is the managed `bin` directory.
    pub fn message(&self, bin_dir: &str) -> (r: String)
        ensures
            r@ == match self {
                SetupWarning::NotInstalled =>
                    "multirust is not installed for the current user: `rustc` invocations will not be proxied.\n\nFor more information, run  `multirust install --help`\n"@,
                SetupWarning::NotOnPath =>
                    "multirust is installed but is not set up correctly: `rustc` invocations will not be proxied.\n\nEnsure '"@
                        + bin_dir@ + "' is on your PATH, and has priority.\n"@,
            },
    {
        match self {
            SetupWarning::NotInstalled => String::from_str(
                "multirust is not installed for the current user: `rustc` invocations will not be proxied.\n\nFor more information, run  `multirust install --help`\n",
            ),
            SetupWarning::NotOnPath => {
                let a = joined(
                    "multirust is installed but is not set up correctly: `rustc` invocations will not be proxied.\n\nEnsure '",
                    bin_dir,
                );
                joined(a.as_str(), "' is on your PATH, and has priority.\n")
            },
        }
    }
}

/// Reads a yes/no answer: `y` or `Y` is yes, `n` or `N` is no, anything else is no answer.
pub fn parse_answer(line: &str) -> (r: Option<bool>)
    ensures
        r == if line@ == "y"@ || line@ == "Y"@ {
            Some(true)
        } else if line@ == "n"@ || line@ == "N"@ {
            Some(false)
        } else {
            None::<bool>
        },
{
    if same_text(line, "y") || same_text(line, "Y") {
        Some(true)
    } else if same_text(line, "n") || same_text(line, "N") {
        Some(false)
    } else {
        None
    }
}

/// Whether a question was answered yes; no answer counts as no.
pub fn confirmed(answer: Option<bool>) -> (r: bool)
    ensures
        r == (answer == Some(true)),
{
    match answer {
        Some(b) => b,
        None => false,
    }
}

/// What the first-run flow offers.
pub enum InstallOffer {
    /// Not installed: offer to install.
    Install,
    /// Installed, but this executable is another one: offer to replace it.
    Replace,
    /// This executable is the installed one: only say so.
    AlreadyCurrent,
}

pub fn install_offer(installed: bool, running_from_bin: bool) -> (r: InstallOffer)
    ensures
        r == if !installed {
            InstallOffer::Install
        } else if !running_from_bin {
            InstallOffer::Replace
        } else {
            InstallOffer::AlreadyCurrent
        },
{
    if !installed {
        InstallOffer::Install
    } else if !running_from_bin {
        InstallOffer::Replace
    } else {
        InstallOffer::AlreadyCurrent
    }
}

/// The page opened by `doc`: the index of all documentation, or of the standard library.
pub fn doc_url(all: bool) -> (r: String)
    ensures
        r@ == if all { "index.html"@ } else { "std/index.html"@ },
{
    if all {
        String::from_str("index.html")
    } else {
        String::from_str("std/index.html")
    }
}

pub const NO_OVERRIDES: &'static str = "no overrides";

pub const NO_TOOLCHAINS: &'static str = "no installed toolchains";

/// The lines of a listing: the items, or the single line `empty_message` when there are none.
pub fn listing_lines(items: Vec<String>, empty_message: &str) -> (r: Vec<String>)
    ensures
        items@.len() == 0 ==> texts(r@) == seq![empty_message@],
        items@.len() > 0 ==> r@ == items@,
{
    if items.len() == 0 {
        let r = vec![String::from_str(empty_message)];
        assert(texts(r@) =~= seq![empty_message@]);
        r
    } else {
        items
    }
}

/// `n` spaces.
pub open spec fn spaces(n: nat) -> Seq<char> {
    Seq::new(n, |i: int| ' ')
}

/// The length of the longest name, 0 when there are none.
pub fn max_name_len(names: &Vec<String>) -> (r: usize)
    ensures
        forall|i: int| 0 <= i < names@.len() ==> (#[trigger] names@[i])@.len() <= r,
        names@.len() == 0 ==> r == 0,
        names@.len() > 0 ==> exists|i: int| 0 <= i < names@.len() && (#[trigger] names@[i])@.len() == r,
{
    let mut best: usize = 0;
    let mut i: usize = 0;
    while i < names.len()
        invariant
            i <= names@.len(),
            forall|j: int| 0 <= j < i ==> (#[trigger] names@[j])@.len() <= best,
            i == 0 ==> best == 0,
            i > 0 ==> exists|j: int| 0 <= j < i && (#[trigger] names@[j])@.len() == best,
        decreases names@.len() - i,
    {
        let n = names[i].as_str().unicode_len();
        if i == 0 || n > best {
            best = n;
        }
        i = i + 1;
    }
    best
}

/// `name` right-aligned in a column `width` characters wide.
pub fn padded_name(name: &str, width: usize) -> (r: String)
    requires
        name@.len() <= width,
    ensures
        r@ == spaces((width - name@.len()) as nat) + name@,
{
    let n = name.unicode_len();
    let mut pad = String::new();
    let mut k: usize = 0;
    while k < width - n
        invariant
            n == name@.len(),
            n <= width,
            k <= width - n,
            pad@ == spaces(k as nat),
        decreases width - n - k,
    {
        pad.append(" ");
        proof { reveal_strlit(" "); }
        assert(pad@ =~= spaces((k + 1) as nat));
        k = k + 1;
    }
    pad.append(name);
    pad
}

/// One line of the update report: the padded name and whether its update succeeded.
pub fn update_line(name: &str, width: usize, ok: bool) -> (r: String)
    requires
        name@.len() <= width,
    ensures
        r@ == spaces((width - name@.len()) as nat) + name@ + " update "@
            + if ok { "succeeded"@ } else { "FAILED"@ },
{
    let a = padded_name(name, width);
    let b = joined(a.as_str(), " update ");
    if ok {
        joined(b.as_str(), "succeeded")
    } else {
        joined(b.as_str(), "FAILED")
    }
}

} // verus!
