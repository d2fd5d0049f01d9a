//! The linking engine: path resolution, link-status classification, and the
//! create/remove/conflict logic, all described against the filesystem model.
//!
//! Every operation takes the observed model and returns the actions a caller
//! must perform on the real filesystem, in order.  Under `dry_run` the same
//! validation runs and the same outcome is reported, but the model (and so
//! the filesystem) is left untouched.

use vstd::prelude::*;

verus! {

use crate::config::Config;
use crate::config::ConflictStrategy;
use crate::config::Package;
use crate::config::PackageView;
use crate::error::Error;
use crate::fsmodel::FsAction;
use crate::fsmodel::FsEntry;
use crate::fsmodel::FsModel;
use crate::fsmodel::VEntry;
use crate::fsmodel::apply_actions;
use crate::fsmodel::spec_apply;
use crate::state::State;
use crate::strutil::concat3;
use vstd::string::StringExecFns;
use crate::strutil::concat_str;
use crate::strutil::cut_at_last;
use crate::strutil::prefix_before_last;

/// How a package's target path relates to its source.
#[derive(Debug, Clone, Copy, PartialEq, Eq, Structural)]
pub enum LinkStatusKind {
    /// The target is a symlink whose immediate destination is the resolved
    /// source path.
    Okay,
    /// The target is a symlink pointing elsewhere, or unreadable.
    BrokenSymlink,
    /// The target exists but is not a symlink.
    NotSymlink,
    /// The target does not exist.
    Missing,
}

/// The status of one package's link.
#[derive(Debug, Clone)]
pub struct LinkStatus {
    /// The package name.
    pub package: String,
    /// The resolved target path.
    pub target: String,
    /// How the target relates to the resolved source.
    pub kind: LinkStatusKind,
}

/// The inputs of the engine that come from the configuration and the state.
pub struct LinkEnv {
    pub source_root: Seq<char>,
    pub target_root: Seq<char>,
    pub strategy: ConflictStrategy,
    pub global_default_version: Option<Seq<char>>,
    pub pins: Map<Seq<char>, Seq<char>>,
}

/// The engine inputs carried by a configuration and a state.
pub open spec fn env_of(cfg: &Config, state: &State) -> LinkEnv {
    LinkEnv {
        source_root: cfg.spec_source_root(),
        target_root: cfg.spec_target_root(),
        strategy: cfg.global.conflict_strategy,
        global_default_version: cfg.vsc.default_version.deep_view(),
        pins: state@.pinned_versions,
    }
}

/// `root`, a separator, and `name`.
pub open spec fn path_join(root: Seq<char>, name: Seq<char>) -> Seq<char> {
    root + "/"@ + name
}

/// The directory name of a versioned source: `name@version`.
pub open spec fn versioned_name(name: Seq<char>, v: Seq<char>) -> Seq<char> {
    name + "@"@ + v
}

/// The resolved version: pin, then package default, then global default.
pub open spec fn spec_version(env: LinkEnv, name: Seq<char>, p: PackageView) -> Option<Seq<char>> {
    if env.pins.contains_key(name) {
        Some(env.pins[name])
    } else if p.default_version is Some {
        p.default_version
    } else {
        env.global_default_version
    }
}

/// The unversioned source path: the source override, or the package name,
/// under the source root.
pub open spec fn spec_base_source(env: LinkEnv, name: Seq<char>, p: PackageView) -> Seq<char> {
    match p.source {
        Some(s) => path_join(env.source_root, s),
        None => path_join(env.source_root, name),
    }
}

/// The versioned source path `root/name@version`.
pub open spec fn spec_versioned_source(env: LinkEnv, name: Seq<char>, v: Seq<char>) -> Seq<char> {
    path_join(env.source_root, versioned_name(name, v))
}

/// The source path used for linking: the versioned directory when a version
/// resolves and that directory is observed, the unversioned path otherwise.
pub open spec fn spec_source(
    m: Map<Seq<char>, VEntry>,
    env: LinkEnv,
    name: Seq<char>,
    p: PackageView,
) -> Seq<char> {
    match spec_version(env, name, p) {
        Some(v) => {
            let vp = spec_versioned_source(env, name, v);
            if m.contains_key(vp) && m[vp] is Dir {
                vp
            } else {
                spec_base_source(env, name, p)
            }
        },
        None => spec_base_source(env, name, p),
    }
}

/// The target path: the target override, or the package name, under the
/// target root.
pub open spec fn spec_target(env: LinkEnv, name: Seq<char>, p: PackageView) -> Seq<char> {
    match p.target {
        Some(t) => path_join(env.target_root, t),
        None => path_join(env.target_root, name),
    }
}

/// The backup path used by the `Backup` strategy.
pub open spec fn spec_backup(t: Seq<char>) -> Seq<char> {
    t + ".bak"@
}

/// The status of a target path in the model.
pub open spec fn spec_status(
    m: Map<Seq<char>, VEntry>,
    env: LinkEnv,
    name: Seq<char>,
    p: PackageView,
) -> LinkStatusKind {
    let t = spec_target(env, name, p);
    let s = spec_source(m, env, name, p);
    if !m.contains_key(t) {
        LinkStatusKind::Missing
    } else {
        match m[t] {
            VEntry::Symlink(d) => if d == s {
                LinkStatusKind::Okay
            } else {
                LinkStatusKind::BrokenSymlink
            },
            VEntry::Dir => LinkStatusKind::NotSymlink,
            VEntry::File => LinkStatusKind::NotSymlink,
        }
    }
}

/// Why a link operation fails.
#[derive(Debug, Clone, Copy, PartialEq, Eq, Structural)]
pub enum LinkFailure {
    /// The resolved source path does not exist.
    MissingSource,
    /// The target is occupied, the strategy is `Prompt`, and no affirmative
    /// answer is available.
    PromptDeclined,
}

/// True when the target is occupied by a non-symlink entry.
pub open spec fn spec_conflicted(
    m: Map<Seq<char>, VEntry>,
    env: LinkEnv,
    name: Seq<char>,
    p: PackageView,
) -> bool {
    let t = spec_target(env, name, p);
    m.contains_key(t) && !(m[t] is Symlink)
}

/// Whether linking fails, and why.  `prompt` carries the confirmation
/// available for the `Prompt` strategy: `None` when input is not
/// interactive, `Some(answer)` otherwise.
pub open spec fn spec_link_err(
    m: Map<Seq<char>, VEntry>,
    env: LinkEnv,
    name: Seq<char>,
    p: PackageView,
    prompt: Option<bool>,
) -> Option<LinkFailure> {
    if !m.contains_key(spec_source(m, env, name, p)) {
        Some(LinkFailure::MissingSource)
    } else if spec_conflicted(m, env, name, p) && env.strategy is Prompt && prompt != Some(true) {
        Some(LinkFailure::PromptDeclined)
    } else {
        None
    }
}

/// True when linking succeeds but deliberately leaves a conflicting entry in
/// place (the `Skip` strategy).
pub open spec fn spec_link_skipped(
    m: Map<Seq<char>, VEntry>,
    env: LinkEnv,
    name: Seq<char>,
    p: PackageView,
) -> bool {
    spec_conflicted(m, env, name, p) && env.strategy is Skip
}

/// `m` with `p` present as a directory.
pub open spec fn ensure_dir(m: Map<Seq<char>, VEntry>, p: Seq<char>) -> Map<Seq<char>, VEntry> {
    if m.contains_key(p) {
        m
    } else {
        m.insert(p, VEntry::Dir)
    }
}

/// The model after a successful link (meaningful when `spec_link_err` is
/// `None`).
pub open spec fn spec_link_map(
    m: Map<Seq<char>, VEntry>,
    env: LinkEnv,
    name: Seq<char>,
    p: PackageView,
) -> Map<Seq<char>, VEntry> {
    let s = spec_source(m, env, name, p);
    let t = spec_target(env, name, p);
    let pa = prefix_before_last(t, '/');
    if !m.contains_key(t) {
        ensure_dir(m, pa).insert(t, VEntry::Symlink(s))
    } else {
        match m[t] {
            VEntry::Symlink(d) => if d == s {
                ensure_dir(m, pa)
            } else {
                ensure_dir(m, pa).insert(t, VEntry::Symlink(s))
            },
            _ => match env.strategy {
                ConflictStrategy::Skip => m,
                _ => if env.strategy is Backup {
                    ensure_dir(m, pa).remove(t).insert(spec_backup(t), m[t]).insert(
                        t,
                        VEntry::Symlink(s),
                    )
                } else {
                    ensure_dir(m, pa).insert(t, VEntry::Symlink(s))
                },
            },
        }
    }
}

/// The model after a remove: the target entry is dropped when it is a
/// symlink, and nothing else changes.
pub open spec fn spec_remove_map(
    m: Map<Seq<char>, VEntry>,
    env: LinkEnv,
    name: Seq<char>,
    p: PackageView,
) -> Map<Seq<char>, VEntry> {
    let t = spec_target(env, name, p);
    if m.contains_key(t) && m[t] is Symlink {
        m.remove(t)
    } else {
        m
    }
}

/// Relies on `shellexpand::full`: expands a leading `~` to the home
/// directory and `$VAR` references to environment variables.  A string with
/// no `$` anywhere and no leading `~` comes back unchanged, as does any
/// string whose expansion fails.
#[verifier::external_body]
pub fn expand_path(p: &String) -> (r: String)
    ensures
        ((forall|i: int| 0 <= i < p@.len() ==> p@[i] != '$') && (p@.len() == 0 || p@[0] != '~'))
            ==> r@ == p@,
{
    match shellexpand::full(p.as_str()) {
        Ok(c) => c.into_owned(),
        Err(_) => p.clone(),
    }
}

/// `root`, a separator, and `name`, as a string.
pub fn join_path(root: &String, name: &String) -> (r: String)
    ensures
        r@ == path_join(root@, name@),
{
    concat3(root.as_str(), "/", name.as_str())
}

/// The version used for the package: the pinned version, then the package's
/// own default, then the global default; a `Version` error when none is set.
pub fn pick_version(name: &String, pkg: &Package, cfg: &Config, state: &State) -> (r: Result<
    String,
    Error,
>)
    requires
        state.wf(),
    ensures
        match r {
            Ok(v) => spec_version(env_of(cfg, state), name@, pkg@) == Some(v@),
            Err(e) => spec_version(env_of(cfg, state), name@, pkg@) is None && (e matches
                Error::Version(m) && m@ == "no version for "@ + name@),
        },
{
    match state.pinned_versions.get(name) {
        Some(v) => Ok(v.clone()),
        None => match &pkg.default_version {
            Some(v) => Ok(v.clone()),
            None => match &cfg.vsc.default_version {
                Some(v) => Ok(v.clone()),
                None => Err(Error::Version(concat_str("no version for ", name.as_str()))),
            },
        },
    }
}

/// The source and target paths used for the package, with the versioned
/// source directory preferred when it is observed as a directory.
pub fn resolve_paths(
    name: &String,
    pkg: &Package,
    cfg: &Config,
    state: &State,
    fs: &FsModel,
) -> (r: Result<(String, String), Error>)
    requires
        state.wf(),
        fs.wf(),
    ensures
        r is Ok,
        r matches Ok(paths) ==> paths.0@ == spec_source(fs@, env_of(cfg, state), name@, pkg@)
            && paths.1@ == spec_target(env_of(cfg, state), name@, pkg@),
{
    let source_root = cfg.source_root();
    let target_root = cfg.target_root();
    let base_name = match &pkg.source {
        Some(s) => s.clone(),
        None => name.clone(),
    };
    let mut source_dir = join_path(&source_root, &base_name);
    match pick_version(name, pkg, cfg, state) {
        Ok(v) => {
            let vname = concat3(name.as_str(), "@", v.as_str());
            let vpath = join_path(&source_root, &vname);
            match fs.get(&vpath) {
                Some(e) => match e {
                    FsEntry::Dir => {
                        source_dir = vpath;
                    },
                    _ => {},
                },
                None => {},
            }
        },
        Err(_) => {},
    }
    let target_name = match &pkg.target {
        Some(t) => t.clone(),
        None => name.clone(),
    };
    let target_dir = join_path(&target_root, &target_name);
    Ok((source_dir, target_dir))
}

/// The status of the package's link, computed fresh from the model.
pub fn status_package(
    name: &String,
    pkg: &Package,
    cfg: &Config,
    state: &State,
    fs: &FsModel,
) -> (r: Result<LinkStatus, Error>)
    requires
        state.wf(),
        fs.wf(),
    ensures
        r is Ok,
        r matches Ok(st) ==> st.kind == spec_status(fs@, env_of(cfg, state), name@, pkg@)
            && st.target@ == spec_target(env_of(cfg, state), name@, pkg@) && st.package@ == name@,
{
    let (source_dir, target_dir) = match resolve_paths(name, pkg, cfg, state, fs) {
        Ok(p) => p,
        Err(e) => {
            return Err(e);
        },
    };
    let kind = match fs.get(&target_dir) {
        None => LinkStatusKind::Missing,
        Some(e) => match e {
            FsEntry::Symlink(d) => {
                if *d == source_dir {
                    LinkStatusKind::Okay
                } else {
                    LinkStatusKind::BrokenSymlink
                }
            },
            _ => LinkStatusKind::NotSymlink,
        },
    };
    Ok(LinkStatus { package: name.clone(), target: target_dir, kind })
}

/// Links the package: validates the source, resolves any conflict at the
/// target per the configured strategy, and returns the filesystem actions a
/// real run performs.  Under `dry_run` the same checks run and the same
/// outcome is returned, but the model is not changed.  `prompt` carries the
/// confirmation available for the `Prompt` strategy (`None` when input is
/// not interactive).
pub fn link_package(
    name: &String,
    pkg: &Package,
    cfg: &Config,
    state: &State,
    _ver: Option<&String>,
    dry_run: bool,
    prompt: Option<bool>,
    fs: &mut FsModel,
) -> (r: Result<Vec<FsAction>, Error>)
    requires
        state.wf(),
        old(fs).wf(),
    ensures
        final(fs).wf(),
        dry_run ==> final(fs)@ =~= old(fs)@,
        r is Err <==> spec_link_err(old(fs)@, env_of(cfg, state), name@, pkg@, prompt) is Some,
        r matches Err(e) ==> {
            &&& final(fs)@ =~= old(fs)@
            &&& (spec_link_err(old(fs)@, env_of(cfg, state), name@, pkg@, prompt) == Some(
                LinkFailure::MissingSource,
            ) ==> (e matches Error::InvalidConfig(m) && m@ == "source missing: "@ + spec_source(
                old(fs)@,
                env_of(cfg, state),
                name@,
                pkg@,
            )))
            &&& (spec_link_err(old(fs)@, env_of(cfg, state), name@, pkg@, prompt) == Some(
                LinkFailure::PromptDeclined,
            ) ==> e is Conflict)
        },
        r matches Ok(plan) ==> spec_apply(old(fs)@, plan@) =~= spec_link_map(
            old(fs)@,
            env_of(cfg, state),
            name@,
            pkg@,
        ),
        r is Ok && !dry_run ==> final(fs)@ =~= spec_link_map(
            old(fs)@,
            env_of(cfg, state),
            name@,
            pkg@,
        ),
{
    let ghost env = env_of(cfg, state);
    let (source_dir, target_dir) = match resolve_paths(name, pkg, cfg, state, fs) {
        Ok(p) => p,
        Err(e) => {
            return Err(e);
        },
    };
    if fs.get(&source_dir).is_none() {
        return Err(Error::InvalidConfig(concat_str("source missing: ", source_dir.as_str())));
    }
    let ghost m = fs@;
    let ghost t = spec_target(env, name@, pkg@);
    let ghost srcp = spec_source(m, env, name@, pkg@);
    let parent = cut_at_last(&target_dir, '/');
    let mut plan: Vec<FsAction> = Vec::new();
    let target_entry = match fs.get(&target_dir) {
        Some(e) => Some(e.dup()),
        None => None,
    };
    match target_entry {
        None => {
            let a1 = FsAction::CreateDirAll(parent);
            let a2 = FsAction::MakeLink(source_dir.clone(), target_dir.clone());
            let ghost g1 = a1;
            let ghost g2 = a2;
            plan.push(a1);
            plan.push(a2);
            proof {
                assert(plan@ =~= seq![g1, g2]);
                crate::fsmodel::lemma_apply2(m, g1, g2);
                assert(spec_apply(m, plan@) =~= spec_link_map(m, env, name@, pkg@));
            }
        },
        Some(FsEntry::Symlink(d)) => {
            if d == source_dir {
                let a1 = FsAction::CreateDirAll(parent);
                let ghost g1 = a1;
                plan.push(a1);
                proof {
                    assert(plan@ =~= seq![g1]);
                    crate::fsmodel::lemma_apply1(m, g1);
                    assert(m[t] == VEntry::Symlink(d@));
                    assert(spec_apply(m, plan@) =~= spec_link_map(m, env, name@, pkg@));
                }
            } else {
                let a1 = FsAction::CreateDirAll(parent);
                let a2 = FsAction::RemoveFile(target_dir.clone());
                let a3 = FsAction::MakeLink(source_dir.clone(), target_dir.clone());
                let ghost g1 = a1;
                let ghost g2 = a2;
                let ghost g3 = a3;
                plan.push(a1);
                plan.push(a2);
                plan.push(a3);
                proof {
                    assert(plan@ =~= seq![g1, g2, g3]);
                    crate::fsmodel::lemma_apply3(m, g1, g2, g3);
                    assert(m[t] == VEntry::Symlink(d@));
                    assert(spec_apply(m, plan@) =~= spec_link_map(m, env, name@, pkg@));
                }
            }
        },
        Some(_) => {
            match cfg.global.conflict_strategy {
                ConflictStrategy::Skip => {
                    proof {
                        assert(plan@ =~= Seq::<FsAction>::empty());
                        assert(spec_apply(m, plan@) =~= spec_link_map(m, env, name@, pkg@));
                    }
                },
                ConflictStrategy::Overwrite => {
                    let a1 = FsAction::CreateDirAll(parent);
                    let a2 = FsAction::RemoveAll(target_dir.clone());
                    let a3 = FsAction::MakeLink(source_dir.clone(), target_dir.clone());
                    let ghost g1 = a1;
                    let ghost g2 = a2;
                    let ghost g3 = a3;
                    plan.push(a1);
                    plan.push(a2);
                    plan.push(a3);
                    proof {
                        assert(plan@ =~= seq![g1, g2, g3]);
                        crate::fsmodel::lemma_apply3(m, g1, g2, g3);
                        assert(spec_apply(m, plan@) =~= spec_link_map(m, env, name@, pkg@));
                    }
                },
                ConflictStrategy::Backup => {
                    let backup = concat_str(target_dir.as_str(), ".bak");
                    let a1 = FsAction::CreateDirAll(parent);
                    let a2 = FsAction::Rename(target_dir.clone(), backup);
                    let a3 = FsAction::MakeLink(source_dir.clone(), target_dir.clone());
                    let ghost g1 = a1;
                    let ghost g2 = a2;
                    let ghost g3 = a3;
                    plan.push(a1);
                    plan.push(a2);
                    plan.push(a3);
                    proof {
                        assert(plan@ =~= seq![g1, g2, g3]);
                        crate::fsmodel::lemma_apply3(m, g1, g2, g3);
                        assert(spec_apply(m, plan@) =~= spec_link_map(m, env, name@, pkg@));
                    }
                },
                ConflictStrategy::Prompt => {
                    match prompt {
                        Some(true) => {
                            let a1 = FsAction::CreateDirAll(parent);
                            let a2 = FsAction::RemoveAll(target_dir.clone());
                            let a3 = FsAction::MakeLink(source_dir.clone(), target_dir.clone());
                            let ghost g1 = a1;
                            let ghost g2 = a2;
                            let ghost g3 = a3;
                            plan.push(a1);
                            plan.push(a2);
                            plan.push(a3);
                            proof {
                                assert(plan@ =~= seq![g1, g2, g3]);
                                crate::fsmodel::lemma_apply3(m, g1, g2, g3);
                                assert(spec_apply(m, plan@) =~= spec_link_map(m, env, name@, pkg@));
                            }
                        },
                        Some(false) => {
                            return Err(
                                Error::Conflict(
                                    concat_str("user skipped ", target_dir.as_str()),
                                ),
                            );
                        },
                        None => {
                            return Err(
                                Error::Conflict(
                                    String::from_str(
                                        "prompt strategy not usable in non-interactive mode",
                                    ),
                                ),
                            );
                        },
                    }
                },
            }
        },
    }
    if !dry_run {
        apply_actions(fs, &plan);
    }
    Ok(plan)
}

/// Removes the package's link: the target is deleted only when it exists and
/// is a symlink; anything else is left alone.  Under `dry_run` the model is
/// not changed.
pub fn remove_package(
    name: &String,
    pkg: &Package,
    cfg: &Config,
    state: &State,
    _ver: Option<&String>,
    dry_run: bool,
    fs: &mut FsModel,
) -> (r: Result<Vec<FsAction>, Error>)
    requires
        state.wf(),
        old(fs).wf(),
    ensures
        final(fs).wf(),
        r is Ok,
        dry_run ==> final(fs)@ =~= old(fs)@,
        r matches Ok(plan) ==> spec_apply(old(fs)@, plan@) =~= spec_remove_map(
            old(fs)@,
            env_of(cfg, state),
            name@,
            pkg@,
        ),
        !dry_run ==> final(fs)@ =~= spec_remove_map(old(fs)@, env_of(cfg, state), name@, pkg@),
{
    let (_source_dir, target_dir) = match resolve_paths(name, pkg, cfg, state, fs) {
        Ok(p) => p,
        Err(e) => {
            return Err(e);
        },
    };
    let ghost m = fs@;
    let mut plan: Vec<FsAction> = Vec::new();
    let is_link = match fs.get(&target_dir) {
        Some(e) => match e {
            FsEntry::Symlink(_) => true,
            _ => false,
        },
        None => false,
    };
    if is_link {
        let a1 = FsAction::RemoveFile(target_dir);
        let ghost g1 = a1;
        plan.push(a1);
        proof {
            assert(plan@ =~= seq![g1]);
            crate::fsmodel::lemma_apply1(m, g1);
            assert(spec_apply(m, plan@) =~= spec_remove_map(m, env_of(cfg, state), name@, pkg@));
        }
    } else {
        proof {
            assert(plan@ =~= Seq::<FsAction>::empty());
            assert(spec_apply(m, plan@) =~= spec_remove_map(m, env_of(cfg, state), name@, pkg@));
        }
    }
    if !dry_run {
        apply_actions(fs, &plan);
    }
    Ok(plan)
}

} // verus!
