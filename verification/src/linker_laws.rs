//! The engine-wide guarantees of the linking logic, stated and proved over
//! the model-level specifications.

use vstd::prelude::*;

verus! {

use crate::config::ConflictStrategy;
use crate::config::PackageView;
use crate::fsmodel::VEntry;
use crate::linker::LinkEnv;
use crate::linker::LinkStatusKind;
use crate::linker::path_join;
use crate::linker::spec_backup;
use crate::linker::spec_conflicted;
use crate::linker::spec_link_err;
use crate::linker::spec_link_map;
use crate::linker::spec_link_skipped;
use crate::linker::spec_source;
use crate::linker::spec_status;
use crate::linker::spec_target;
use crate::linker::spec_version;
use crate::linker::spec_versioned_source;
use crate::strutil::lemma_prefix_before_last_len;
use crate::strutil::prefix_before_last;
use crate::strutil::seq_contains_char;

/// A joined path holds the separator.
proof fn lemma_path_join_has_sep(root: Seq<char>, name: Seq<char>)
    ensures
        seq_contains_char(path_join(root, name), '/'),
{
    reveal_strlit("/");
    assert(path_join(root, name)[root.len() as int] == '/');
}

/// Every target path holds the separator, so the parent entry the engine
/// ensures is a strictly shorter path than the target itself.
proof fn lemma_parent_is_shorter(env: LinkEnv, name: Seq<char>, p: PackageView)
    ensures
        prefix_before_last(spec_target(env, name, p), '/').len() < spec_target(
            env,
            name,
            p,
        ).len(),
{
    let t = spec_target(env, name, p);
    match p.target {
        Some(o) => lemma_path_join_has_sep(env.target_root, o),
        None => lemma_path_join_has_sep(env.target_root, name),
    }
    lemma_prefix_before_last_len(t, '/');
}

/// The backup path is strictly longer than the target path.
proof fn lemma_backup_is_longer(t: Seq<char>)
    ensures
        spec_backup(t).len() > t.len(),
{
    reveal_strlit(".bak");
}

/// The status is `Okay` exactly when the target is a symlink whose immediate
/// destination equals the resolved source path.
pub proof fn lemma_status_okay_iff(
    m: Map<Seq<char>, VEntry>,
    env: LinkEnv,
    name: Seq<char>,
    p: PackageView,
)
    ensures
        spec_status(m, env, name, p) == LinkStatusKind::Okay <==> (m.contains_key(
            spec_target(env, name, p),
        ) && m[spec_target(env, name, p)] == VEntry::Symlink(spec_source(m, env, name, p))),
{
}

/// Version resolution is total and monotone in precedence: a pin wins over
/// the package default, which wins over the global default, and resolution
/// fails exactly when none of the three is set.
pub proof fn lemma_version_precedence(env: LinkEnv, name: Seq<char>, p: PackageView)
    ensures
        env.pins.contains_key(name) ==> spec_version(env, name, p) == Some(env.pins[name]),
        !env.pins.contains_key(name) && p.default_version is Some ==> spec_version(env, name, p)
            == p.default_version,
        !env.pins.contains_key(name) && p.default_version is None ==> spec_version(env, name, p)
            == env.global_default_version,
        spec_version(env, name, p) is None <==> (!env.pins.contains_key(name)
            && p.default_version is None && env.global_default_version is None),
{
}

/// True when the versioned source candidate is none of the paths a link can
/// write: the target, the parent entry, and the backup path.  Linking then
/// cannot change which source the package resolves to.
pub open spec fn spec_resolution_stable(env: LinkEnv, name: Seq<char>, p: PackageView) -> bool {
    match spec_version(env, name, p) {
        Some(v) => {
            let vp = spec_versioned_source(env, name, v);
            let t = spec_target(env, name, p);
            vp != t && vp != prefix_before_last(t, '/') && vp != spec_backup(t)
        },
        None => true,
    }
}

/// A successful link leaves the source resolution unchanged.
proof fn lemma_source_stable(
    m: Map<Seq<char>, VEntry>,
    env: LinkEnv,
    name: Seq<char>,
    p: PackageView,
)
    requires
        spec_resolution_stable(env, name, p),
    ensures
        spec_source(spec_link_map(m, env, name, p), env, name, p) == spec_source(m, env, name, p),
{
}

/// Linking is idempotent: when a link succeeds, linking again succeeds and
/// changes nothing.  The hypothesis `spec_resolution_stable` excludes the
/// degenerate configurations in which the target, its parent or its backup
/// path is itself the versioned source directory.
pub proof fn lemma_link_idempotent(
    m: Map<Seq<char>, VEntry>,
    env: LinkEnv,
    name: Seq<char>,
    p: PackageView,
    prompt: Option<bool>,
)
    requires
        spec_link_err(m, env, name, p, prompt) is None,
        spec_resolution_stable(env, name, p),
    ensures
        spec_link_err(spec_link_map(m, env, name, p), env, name, p, prompt) is None,
        spec_link_map(spec_link_map(m, env, name, p), env, name, p) =~= spec_link_map(
            m,
            env,
            name,
            p,
        ),
{
    let m2 = spec_link_map(m, env, name, p);
    let s = spec_source(m, env, name, p);
    let t = spec_target(env, name, p);
    let pa = prefix_before_last(t, '/');
    lemma_source_stable(m, env, name, p);
    lemma_parent_is_shorter(env, name, p);
    lemma_backup_is_longer(t);
    if spec_link_skipped(m, env, name, p) {
        assert(m2 =~= m);
    } else {
        assert(m2.contains_key(t) && m2[t] == VEntry::Symlink(s));
        assert(m2.contains_key(pa));
        assert(m2.contains_key(s));
        assert(spec_link_map(m2, env, name, p) =~= m2);
    }
}

/// Immediately after a successful link that was not skipped, the status is
/// `Okay`.
pub proof fn lemma_status_after_link(
    m: Map<Seq<char>, VEntry>,
    env: LinkEnv,
    name: Seq<char>,
    p: PackageView,
    prompt: Option<bool>,
)
    requires
        spec_link_err(m, env, name, p, prompt) is None,
        spec_resolution_stable(env, name, p),
        !spec_link_skipped(m, env, name, p),
    ensures
        spec_status(spec_link_map(m, env, name, p), env, name, p) == LinkStatusKind::Okay,
{
    let m2 = spec_link_map(m, env, name, p);
    let s = spec_source(m, env, name, p);
    let t = spec_target(env, name, p);
    lemma_source_stable(m, env, name, p);
    lemma_parent_is_shorter(env, name, p);
    lemma_backup_is_longer(t);
    assert(m2.contains_key(t) && m2[t] == VEntry::Symlink(s));
}

/// The `Backup` strategy keeps the conflicting entry under the `.bak` path
/// and puts a correct symlink in its original place.
pub proof fn lemma_backup_strategy(
    m: Map<Seq<char>, VEntry>,
    env: LinkEnv,
    name: Seq<char>,
    p: PackageView,
)
    requires
        spec_conflicted(m, env, name, p),
        env.strategy == ConflictStrategy::Backup,
    ensures
        ({
            let m2 = spec_link_map(m, env, name, p);
            let t = spec_target(env, name, p);
            let s = spec_source(m, env, name, p);
            &&& m2.contains_key(spec_backup(t))
            &&& m2[spec_backup(t)] == m[t]
            &&& m2.contains_key(t)
            &&& m2[t] == VEntry::Symlink(s)
        }),
{
    let t = spec_target(env, name, p);
    lemma_backup_is_longer(t);
}

} // verus!
