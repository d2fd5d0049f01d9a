//! Configuration data: global roots, conflict strategy, version defaults,
//! profiles and packages.
//!
//! The configuration is an external, read-only input; whatever loads it hands
//! the library one `Config` value per invocation.

use vstd::prelude::*;

verus! {

use crate::dict::Dict;
use vstd::string::StringExecFns;

/// Policy for a pre-existing entry that is not a symlink at a target path.
#[derive(Debug, Clone, Copy, PartialEq, Eq, Structural)]
pub enum ConflictStrategy {
    /// Leave the conflicting entry untouched and report success.
    Skip,
    /// Delete the conflicting entry (recursively for a directory), then link.
    Overwrite,
    /// Rename the conflicting entry with a `.bak` suffix, then link.
    Backup,
    /// Ask for confirmation on an interactive terminal; decline is an error.
    Prompt,
}

impl Default for ConflictStrategy {
    /// The default strategy is `Backup`.
    fn default() -> (r: Self)
        ensures
            r == ConflictStrategy::Backup,
    {
        ConflictStrategy::Backup
    }
}

/// The global section of the configuration.
#[derive(Debug, Clone)]
pub struct Global {
    /// The root directory holding the source trees of all packages.
    pub source_dir: Option<String>,
    /// The root directory where symlinks are created.
    pub target_dir: Option<String>,
    /// The strategy applied when a target path is occupied by a non-symlink.
    pub conflict_strategy: ConflictStrategy,
    /// Glob patterns excluded from linking.
    pub ignore: Vec<String>,
}

/// The abstract value of a `Global`.
pub struct GlobalView {
    pub source_dir: Option<Seq<char>>,
    pub target_dir: Option<Seq<char>>,
    pub conflict_strategy: ConflictStrategy,
    pub ignore: Seq<Seq<char>>,
}

impl View for Global {
    type V = GlobalView;

    open spec fn view(&self) -> GlobalView {
        GlobalView {
            source_dir: self.source_dir.deep_view(),
            target_dir: self.target_dir.deep_view(),
            conflict_strategy: self.conflict_strategy,
            ignore: self.ignore.deep_view(),
        }
    }
}

/// The version-selection section of the configuration.
#[derive(Debug, Clone)]
pub struct Vsc {
    /// A pattern describing versioned directory names.
    pub template: Option<String>,
    /// The global fallback version for packages without their own default.
    pub default_version: Option<String>,
}

/// The abstract value of a `Vsc`.
pub struct VscView {
    pub template: Option<Seq<char>>,
    pub default_version: Option<Seq<char>>,
}

impl View for Vsc {
    type V = VscView;

    open spec fn view(&self) -> VscView {
        VscView {
            template: self.template.deep_view(),
            default_version: self.default_version.deep_view(),
        }
    }
}

/// The default profile: the tags activated when no profile is selected.
#[derive(Debug, Clone)]
pub struct Profiles {
    /// Tags of the default profile.
    pub default: Vec<String>,
}

/// One package: a named source directory linked to a target location.
#[derive(Debug, Clone)]
pub struct Package {
    /// Overrides the source directory name (relative to the source root).
    pub source: Option<String>,
    /// Overrides the target name (relative to the target root).
    pub target: Option<String>,
    /// Operating systems the package applies to; empty means all.
    pub os: Vec<String>,
    /// Tags grouping the package into profiles.
    pub tags: Vec<String>,
    /// The package-specific default version.
    pub default_version: Option<String>,
}

/// The abstract value of a `Package`.
pub struct PackageView {
    pub source: Option<Seq<char>>,
    pub target: Option<Seq<char>>,
    pub os: Seq<Seq<char>>,
    pub tags: Seq<Seq<char>>,
    pub default_version: Option<Seq<char>>,
}

impl View for Package {
    type V = PackageView;

    open spec fn view(&self) -> PackageView {
        PackageView {
            source: self.source.deep_view(),
            target: self.target.deep_view(),
            os: self.os.deep_view(),
            tags: self.tags.deep_view(),
            default_version: self.default_version.deep_view(),
        }
    }
}

impl DeepView for Package {
    type V = PackageView;

    open spec fn deep_view(&self) -> PackageView {
        self.view()
    }
}

impl Default for Package {
    /// A package with no overrides: everything comes from its name and the
    /// global configuration.
    fn default() -> (r: Self)
        ensures
            r@.source is None,
            r@.target is None,
            r@.os =~= Seq::<Seq<char>>::empty(),
            r@.tags =~= Seq::<Seq<char>>::empty(),
            r@.default_version is None,
    {
        Package { source: None, target: None, os: Vec::new(), tags: Vec::new(), default_version: None }
    }
}

/// The whole configuration.
pub struct Config {
    /// Global settings.
    pub global: Global,
    /// Version-selection settings.
    pub vsc: Vsc,
    /// Profile name to list of tags.
    pub profiles: Dict<Vec<String>>,
    /// Package name to package settings.
    pub packages: Dict<Package>,
}

impl Config {
    /// Well-formed: the profile and package tables hold distinct keys.
    pub open spec fn wf(&self) -> bool {
        self.profiles.wf() && self.packages.wf()
    }

    /// The configured source root, with the current directory as fallback.
    pub open spec fn spec_source_root(&self) -> Seq<char> {
        match self.global.source_dir {
            Some(d) => d@,
            None => "."@,
        }
    }

    /// The configured target root, with the current directory as fallback.
    pub open spec fn spec_target_root(&self) -> Seq<char> {
        match self.global.target_dir {
            Some(d) => d@,
            None => "."@,
        }
    }

    /// The configured source root as a string.
    pub fn source_root(&self) -> (r: String)
        ensures
            r@ == self.spec_source_root(),
    {
        match &self.global.source_dir {
            Some(d) => d.clone(),
            None => String::from_str("."),
        }
    }

    /// The configured target root as a string.
    pub fn target_root(&self) -> (r: String)
        ensures
            r@ == self.spec_target_root(),
    {
        match &self.global.target_dir {
            Some(d) => d.clone(),
            None => String::from_str("."),
        }
    }
}

/// The preferred configuration file path: `config/rinkle.toml` when that file
/// exists, `rinkle.toml` otherwise.  The caller reports whether the preferred
/// file exists.
pub fn default_config_path(primary_exists: bool) -> (r: String)
    ensures
        primary_exists ==> r@ == "config/rinkle.toml"@,
        !primary_exists ==> r@ == "rinkle.toml"@,
{
    if primary_exists {
        String::from_str("config/rinkle.toml")
    } else {
        String::from_str("rinkle.toml")
    }
}

} // verus!
