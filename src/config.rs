//! The configuration store: home directory, directory pins, the default
//! toolchain, the schema version gate, and where each toolchain lives.
use vstd::prelude::*;
use crate::error::Error;
use crate::overrides::OverrideStore;
use crate::text::{joined, lemma_sorted_unique, same_text, sort_texts, sorted, texts};

verus! {

/// The schema version of the stored configuration that this program reads.
pub const METADATA_VERSION: &'static str = "2";

/// A toolchain: its name and its install prefix.
pub struct Toolchain {
    pub name: String,
    pub prefix: String,
}

/// How to start a tool inside a toolchain.
pub struct CommandPlan {
    /// Absolute path of the tool's binary.
    pub program: String,
    /// Directory put on the dynamic-library search path of the child.
    pub library_dir: String,
    /// Arguments handed to the tool.
    pub args: Vec<String>,
}

pub struct ConfigStore {
    pub home: String,
    pub overrides: OverrideStore,
    pub default_toolchain: Option<String>,
    pub metadata_version: String,
}

pub open spec fn opt_text(o: Option<String>) -> Option<Seq<char>> {
    match o {
        Some(s) => Some(s@),
        None => None,
    }
}

/// Install prefix of toolchain `name` under `home`.
pub open spec fn prefix_of(home: Seq<char>, name: Seq<char>) -> Seq<char> {
    home + "/toolchains/"@ + name
}

/// Path of `tool` inside the toolchain at `prefix`.
pub open spec fn binary_of(prefix: Seq<char>, tool: Seq<char>) -> Seq<char> {
    prefix + "/bin/"@ + tool
}

/// Library directory of the toolchain at `prefix`.
pub open spec fn library_of(prefix: Seq<char>) -> Seq<char> {
    prefix + "/lib"@
}

/// Reason recorded with a pin made for `directory`.
pub open spec fn override_reason(directory: Seq<char>) -> Seq<char> {
    "directory override for '"@ + directory + "'"@
}

/// Toolchains are listed in lexicographic order, each name as often as it was given.
pub fn list_toolchains(names: Vec<String>) -> (r: Vec<String>)
    ensures
        sorted(texts(r@)),
        texts(r@).to_multiset() == texts(names@).to_multiset(),
{
    sort_texts(names)
}

impl ConfigStore {
    pub open spec fn wf(&self) -> bool {
        self.overrides.wf()
    }

    /// The effective toolchain for `d` and, for a pin, its reason;
    /// `None` when neither a pin nor a default applies.
    pub open spec fn resolution(&self, d: Seq<char>) -> Option<(Seq<char>, Option<Seq<char>>)> {
        if self.overrides@.contains_key(d) {
            Some((self.overrides@[d].0, Some(self.overrides@[d].1)))
        } else {
            match self.default_toolchain {
                Some(t) => Some((t@, None)),
                None => None,
            }
        }
    }

    /// A store under `home` with no pins and no default, at the current schema version.
    pub fn new(home: String) -> (r: ConfigStore)
        ensures
            r.wf(),
            r.home@ == home@,
            r.overrides@ == Map::<Seq<char>, (Seq<char>, Seq<char>)>::empty(),
            r.default_toolchain.is_none(),
            r.metadata_version@ == METADATA_VERSION@,
    {
        ConfigStore {
            home,
            overrides: OverrideStore::new(),
            default_toolchain: None,
            metadata_version: String::from_str(METADATA_VERSION),
        }
    }

    /// Succeeds exactly when the stored schema version is the one this program reads.
    pub fn check_metadata_version(&self) -> (r: Result<(), Error>)
        ensures
            r.is_ok() <==> self.metadata_version@ == METADATA_VERSION@,
            match r {
                Ok(_) => true,
                Err(e) => e == (Error::MetadataVersionMismatch { found: self.metadata_version }),
            },
    {
        if same_text(self.metadata_version.as_str(), METADATA_VERSION) {
            Ok(())
        } else {
            Err(Error::MetadataVersionMismatch { found: self.metadata_version.clone() })
        }
    }

    /// The toolchain called `name`, installed or not.
    pub fn get_toolchain(&self, name: &str) -> (r: Toolchain)
        ensures
            r.name@ == name@,
            r.prefix@ == prefix_of(self.home@, name@),
    {
        let base = joined(self.home.as_str(), "/toolchains/");
        Toolchain { name: String::from_str(name), prefix: joined(base.as_str(), name) }
    }

    /// The default toolchain, if one is set.
    pub fn find_default(&self) -> (r: Option<Toolchain>)
        ensures
            match r {
                Some(t) => self.default_toolchain.is_some() && t.name@ == self.default_toolchain->Some_0@
                    && t.prefix@ == prefix_of(self.home@, t.name@),
                None => self.default_toolchain.is_none(),
            },
    {
        match &self.default_toolchain {
            Some(name) => Some(self.get_toolchain(name.as_str())),
            None => None,
        }
    }

    /// Makes `name` the default toolchain.
    pub fn set_default(&mut self, name: String)
        ensures
            final(self).default_toolchain == Some(name),
            final(self).home == old(self).home,
            final(self).overrides == old(self).overrides,
            final(self).metadata_version == old(self).metadata_version,
    {
        self.default_toolchain = Some(name);
    }

    /// Pins `directory` to toolchain `name`, replacing any earlier pin there.
    pub fn set_override(&mut self, directory: String, name: String)
        requires
            old(self).wf(),
        ensures
            final(self).wf(),
            final(self).overrides@ == old(self).overrides@.insert(
                directory@,
                (name@, override_reason(directory@)),
            ),
            final(self).home == old(self).home,
            final(self).default_toolchain == old(self).default_toolchain,
            final(self).metadata_version == old(self).metadata_version,
    {
        let a = joined("directory override for '", directory.as_str());
        let reason = joined(a.as_str(), "'");
        self.overrides.set(directory, name, reason);
    }

    /// Removes the pin of `directory`; succeeds whether or not there was one.
    pub fn remove_override(&mut self, directory: &str)
        requires
            old(self).wf(),
        ensures
            final(self).wf(),
            final(self).overrides@ == old(self).overrides@.remove(directory@),
            final(self).home == old(self).home,
            final(self).default_toolchain == old(self).default_toolchain,
            final(self).metadata_version == old(self).metadata_version,
    {
        let _ = self.overrides.remove(directory);
    }

    /// The pin of exactly `directory`: its toolchain and reason.
    pub fn find_override(&self, directory: &str) -> (r: Option<(Toolchain, String)>)
        requires
            self.wf(),
        ensures
            match r {
                Some((t, why)) => self.overrides@.contains_key(directory@)
                    && t.name@ == self.overrides@[directory@].0
                    && why@ == self.overrides@[directory@].1
                    && t.prefix@ == prefix_of(self.home@, t.name@),
                None => !self.overrides@.contains_key(directory@),
            },
    {
        match self.overrides.find(directory) {
            Some((name, why)) => Some((self.get_toolchain(name.as_str()), why)),
            None => None,
        }
    }

    /// The toolchain in effect in `directory`: its pin if it has one, else the default.
    /// The reason is given for a pin only.
    pub fn resolve_effective(&self, directory: &str) -> (r: Result<(Toolchain, Option<String>), Error>)
        requires
            self.wf(),
        ensures
            match r {
                Ok((t, why)) => self.resolution(directory@) == Some((t.name@, opt_text(why)))
                    && t.prefix@ == prefix_of(self.home@, t.name@),
                Err(e) => self.resolution(directory@).is_none() && e == Error::NoDefaultToolchain,
            },
    {
        match self.find_override(directory) {
            Some((t, why)) => Ok((t, Some(why))),
            None => match self.find_default() {
                Some(t) => Ok((t, None)),
                None => Err(Error::NoDefaultToolchain),
            },
        }
    }

    /// The pinned directories, in lexicographic order.
    pub fn list_overrides(&self) -> (r: Vec<String>)
        requires
            self.wf(),
        ensures
            sorted(texts(r@)),
            texts(r@).no_duplicates(),
            r@.len() == self.overrides@.dom().len(),
            forall|d: Seq<char>| self.overrides@.contains_key(d) <==> texts(r@).contains(d),
    {
        self.overrides.list()
    }
}

/// In a pinned directory the pin is in effect, with its reason, whatever the default is.
pub proof fn lemma_override_wins(cfg: &ConfigStore, d: Seq<char>)
    requires
        cfg.overrides@.contains_key(d),
    ensures
        cfg.resolution(d) == Some((cfg.overrides@[d].0, Some(cfg.overrides@[d].1))),
{
}

/// In a directory without a pin the default is in effect; with no default, nothing is.
pub proof fn lemma_default_fallback(cfg: &ConfigStore, d: Seq<char>)
    requires
        !cfg.overrides@.contains_key(d),
    ensures
        cfg.resolution(d) == match cfg.default_toolchain {
            Some(t) => Some((t@, None::<Seq<char>>)),
            None => None,
        },
        cfg.default_toolchain.is_none() ==> cfg.resolution(d).is_none(),
{
}

/// Removing the pin of a directory twice leaves the pins as removing it once does,
/// and no pin of that directory.
pub proof fn lemma_remove_override_twice(pins: Map<Seq<char>, (Seq<char>, Seq<char>)>, d: Seq<char>)
    ensures
        pins.remove(d).remove(d) == pins.remove(d),
        !pins.remove(d).contains_key(d),
{
    assert(pins.remove(d).remove(d) =~= pins.remove(d));
}

/// Two sorted toolchain listings of the same names are the same, whatever order the
/// names were found in.
pub proof fn lemma_toolchain_listing_order_free(x: Seq<String>, y: Seq<String>, rx: Seq<String>, ry: Seq<String>)
    requires
        texts(x).to_multiset() == texts(y).to_multiset(),
        sorted(texts(rx)),
        texts(rx).to_multiset() == texts(x).to_multiset(),
        sorted(texts(ry)),
        texts(ry).to_multiset() == texts(y).to_multiset(),
    ensures
        texts(rx) == texts(ry),
{
    lemma_sorted_unique(texts(rx), texts(ry));
}

/// Two sorted override listings of the same pinned directories are the same,
/// whatever order the pins were made in.
pub proof fn lemma_override_listing_order_free(x: Seq<Seq<char>>, y: Seq<Seq<char>>)
    requires
        sorted(x),
        sorted(y),
        x.no_duplicates(),
        y.no_duplicates(),
        forall|d: Seq<char>| x.contains(d) <==> y.contains(d),
    ensures
        x == y,
{
    x.lemma_multiset_has_no_duplicates();
    y.lemma_multiset_has_no_duplicates();
    assert forall|d: Seq<char>| x.to_multiset().count(d) == y.to_multiset().count(d) by {
        vstd::seq_lib::to_multiset_contains(x, d);
        vstd::seq_lib::to_multiset_contains(y, d);
    }
    assert(x.to_multiset() =~= y.to_multiset());
    lemma_sorted_unique(x, y);
}

/// What running `tool` in directory `d` yields, given the installed toolchain names.
pub open spec fn command_for_dir_of(
    cfg: &ConfigStore,
    d: Seq<char>,
    tool: Seq<char>,
    installed: Seq<String>,
    r: Result<CommandPlan, Error>,
) -> bool {
    match cfg.resolution(d) {
        None => r == Err::<CommandPlan, Error>(Error::NoDefaultToolchain),
        Some((name, _)) => match r {
            Ok(p) => texts(installed).contains(name)
                && p.program@ == binary_of(prefix_of(cfg.home@, name), tool)
                && p.library_dir@ == library_of(prefix_of(cfg.home@, name))
                && p.args@.len() == 0,
            Err(e) => !texts(installed).contains(name)
                && e is ToolchainNotInstalled && e->ToolchainNotInstalled_name@ == name,
        },
    }
}

/// Whether `name` is among `installed`.
fn name_listed(name: &str, installed: &Vec<String>) -> (r: bool)
    ensures
        r == texts(installed@).contains(name@),
{
    let mut i: usize = 0;
    while i < installed.len()
        invariant
            i <= installed@.len(),
            forall|j: int| 0 <= j < i ==> #[trigger] installed@[j]@ != name@,
        decreases installed@.len() - i,
    {
        if same_text(installed[i].as_str(), name) {
            assert(texts(installed@)[i as int] == name@);
            return true;
        }
        i = i + 1;
    }
    assert forall|j: int| 0 <= j < texts(installed@).len() implies texts(installed@)[j] != name@ by {
        assert(installed@[j]@ != name@);
    }
    false
}

impl Toolchain {
    /// Whether this toolchain is among the installed ones; `installed` lists the
    /// toolchains found on disk at the time of asking.
    pub fn is_installed(&self, installed: &Vec<String>) -> (r: bool)
        ensures
            r == texts(installed@).contains(self.name@),
    {
        name_listed(self.name.as_str(), installed)
    }

    /// How to run `tool` from this toolchain: its binary under the prefix, with the
    /// toolchain's library directory on the search path. Fails when the toolchain
    /// is not among `installed`.
    pub fn create_command(&self, tool: &str, installed: &Vec<String>) -> (r: Result<CommandPlan, Error>)
        ensures
            r.is_ok() <==> texts(installed@).contains(self.name@),
            match r {
                Ok(p) => p.program@ == binary_of(self.prefix@, tool@)
                    && p.library_dir@ == library_of(self.prefix@)
                    && p.args@.len() == 0,
                Err(e) => e == (Error::ToolchainNotInstalled { name: self.name }),
            },
    {
        if !self.is_installed(installed) {
            return Err(Error::ToolchainNotInstalled { name: self.name.clone() });
        }
        let bin = joined(self.prefix.as_str(), "/bin/");
        Ok(CommandPlan {
            program: joined(bin.as_str(), tool),
            library_dir: joined(self.prefix.as_str(), "/lib"),
            args: Vec::new(),
        })
    }
}

impl ConfigStore {
    /// How to run `tool` in `directory`: the effective toolchain is resolved and must
    /// be among `installed`; a pin to a missing toolchain fails and never falls back
    /// to the default.
    pub fn create_command_for_dir(&self, directory: &str, tool: &str, installed: &Vec<String>) -> (r: Result<CommandPlan, Error>)
        requires
            self.wf(),
        ensures
            command_for_dir_of(self, directory@, tool@, installed@, r),
    {
        match self.resolve_effective(directory) {
            Ok((t, _)) => t.create_command(tool, installed),
            Err(e) => Err(e),
        }
    }
}

impl ConfigStore {
    /// The installed toolchain in effect in `directory`. A pin or default naming a
    /// toolchain that is not among `installed` fails; a dangling pin never falls back
    /// to the default.
    pub fn resolve_installed(&self, directory: &str, installed: &Vec<String>) -> (r: Result<Toolchain, Error>)
        requires
            self.wf(),
        ensures
            match self.resolution(directory@) {
                None => r == Err::<Toolchain, Error>(Error::NoDefaultToolchain),
                Some((name, _)) => match r {
                    Ok(t) => texts(installed@).contains(name) && t.name@ == name
                        && t.prefix@ == prefix_of(self.home@, name),
                    Err(e) => !texts(installed@).contains(name)
                        && e is ToolchainNotInstalled && e->ToolchainNotInstalled_name@ == name,
                },
            },
    {
        match self.resolve_effective(directory) {
            Ok((t, _)) => {
                if t.is_installed(installed) {
                    Ok(t)
                } else {
                    Err(Error::ToolchainNotInstalled { name: t.name })
                }
            },
            Err(e) => Err(e),
        }
    }
}

} // verus!
