//! The command layer: the parsed invocation, package selection by profile
//! and operating system, the batch runner, and the status report.
//!
//! Argument parsing, printing, and every filesystem call stay with the
//! caller; the decisions they need are all here, each a function of its
//! inputs.

use vstd::prelude::*;

verus! {

use crate::config::Config;
use crate::config::Package;
use crate::config::PackageView;
use crate::error::Error;
use crate::fsmodel::FsAction;
use crate::fsmodel::FsModel;
use crate::ipc::is_ws;
use crate::ipc::trim;
use crate::ipc::trim_to_chars;
use crate::linker::LinkStatusKind;
use crate::linker::env_of;
use crate::linker::link_package;
use crate::linker::remove_package;
use crate::linker::spec_status;
use crate::linker::spec_target;
use crate::linker::status_package;
use crate::state::State;
use crate::statefile::quoted;
use crate::escape::quote;
use crate::strutil::from_chars;
use crate::strutil::to_chars;
use vstd::string::StringExecFns;

/// The options of one invocation.
pub struct Cli {
    /// The configuration file path, when given.
    pub config: Option<String>,
    /// Simulate without touching the filesystem.
    pub dry_run: bool,
    /// Use this profile instead of the saved one, for this invocation only.
    pub profile: Option<String>,
    /// What to do.
    pub command: Commands,
}

/// The available commands.
pub enum Commands {
    /// List the configured packages.
    List,
    /// Show the link status of the selected packages.
    Status { json: bool },
    /// Create symlinks for packages.
    Link { packages: Vec<String> },
    /// Remove symlinks for packages.
    Remove { packages: Vec<String> },
    /// Set the active profile.
    UseProfile { name: String },
    /// Pin a version for a package.
    Vsc { package: String, version: String },
    /// Set up a new working tree.
    Init { repo: Option<String>, dest: Option<String> },
    /// Enter the line-mode shell.
    Interactive,
    /// Start the background monitor.
    Start,
    /// Stop the background monitor.
    Stop,
    /// Run the service loop (used by the daemon itself).
    Run,
}

/// The application: the invocation-wide settings every command shares.
pub struct App {
    /// The configuration file path.
    pub config_path: String,
    /// Simulate without touching the filesystem.
    pub dry_run: bool,
    /// The profile overriding the saved one, if any.
    pub profile_override: Option<String>,
}

impl App {
    /// Builds the application from the parsed invocation.  The caller
    /// reports whether the preferred configuration file exists, for the
    /// default path.
    pub fn new(cli: &Cli, primary_config_exists: bool) -> (r: App)
        ensures
            cli.config matches Some(c) ==> r.config_path@ == c@,
            cli.config is None && primary_config_exists ==> r.config_path@
                == "config/rinkle.toml"@,
            cli.config is None && !primary_config_exists ==> r.config_path@ == "rinkle.toml"@,
            r.dry_run == cli.dry_run,
            r.profile_override.deep_view() == cli.profile.deep_view(),
    {
        let config_path = match &cli.config {
            Some(c) => c.clone(),
            None => crate::config::default_config_path(primary_config_exists),
        };
        let profile_override = match &cli.profile {
            Some(p) => Some(p.clone()),
            None => None,
        };
        App { config_path, dry_run: cli.dry_run, profile_override }
    }

    /// The packages a command works on: the ones given, or every selected
    /// package when none are.
    pub fn resolve_package_list(
        &self,
        packages: &Vec<String>,
        cfg: &Config,
        state: &State,
        os: &String,
    ) -> (r: Vec<String>)
        requires
            cfg.wf(),
        ensures
            packages@.len() > 0 ==> r.deep_view() == packages.deep_view(),
            packages@.len() == 0 ==> r.deep_view() == spec_selection(
                cfg,
                self.profile_override.deep_view(),
                Some(state@.active_profile),
                os@,
            ),
    {
        if packages.len() == 0 {
            select_packages(cfg, self.profile_override.as_ref(), Some(state), os)
        } else {
            clone_strings(packages)
        }
    }
}

/// A copy of a string list.
pub fn clone_strings(v: &Vec<String>) -> (r: Vec<String>)
    ensures
        r.deep_view() == v.deep_view(),
{
    let mut r: Vec<String> = Vec::new();
    let mut i: usize = 0;
    while i < v.len()
        invariant
            i <= v@.len(),
            r@ == v@.subrange(0, i as int),
        decreases v@.len() - i,
    {
        r.push(v[i].clone());
        i = i + 1;
        proof {
            assert(r@ =~= v@.subrange(0, i as int));
        }
    }
    proof {
        assert(r@ =~= v@);
        assert(r.deep_view() =~= v.deep_view());
    }
    r
}

/// Whether `x` occurs in `v`.
pub fn contains_string(v: &Vec<String>, x: &String) -> (r: bool)
    ensures
        r == v.deep_view().contains(x@),
{
    let mut i: usize = 0;
    while i < v.len()
        invariant
            i <= v@.len(),
            forall|j: int| 0 <= j < i ==> v.deep_view()[j] != x@,
        decreases v@.len() - i,
    {
        if v[i] == *x {
            proof {
                assert(v.deep_view()[i as int] == x@);
            }
            return true;
        }
        i = i + 1;
    }
    proof {
        if v.deep_view().contains(x@) {
            let j = choose|j: int| 0 <= j < v.deep_view().len() && v.deep_view()[j] == x@;
            assert(v.deep_view()[j] != x@);
        }
    }
    false
}

/// The profile a command works under: the override, then the saved one,
/// then `default`.
pub open spec fn spec_effective_profile(
    profile: Option<Seq<char>>,
    active: Option<Seq<char>>,
) -> Seq<char> {
    match profile {
        Some(p) => p,
        None => match active {
            Some(a) => a,
            None => "default"@,
        },
    }
}

/// True when the package carries at least one of the profile's tags; a
/// profile without a tag list admits every package.
pub open spec fn spec_tag_match(tags: Option<Seq<Seq<char>>>, ptags: Seq<Seq<char>>) -> bool {
    match tags {
        Some(ts) => exists|i: int| 0 <= i < ptags.len() && ts.contains(#[trigger] ptags[i]),
        None => true,
    }
}

/// True when the package applies to this operating system: no list means
/// every system.
pub open spec fn spec_os_match(pos: Seq<Seq<char>>, os: Seq<char>) -> bool {
    pos.len() == 0 || pos.contains(os)
}

/// True when the package is selected under the given tags and system.
pub open spec fn spec_selected(p: PackageView, tags: Option<Seq<Seq<char>>>, os: Seq<char>) -> bool {
    spec_tag_match(tags, p.tags) && spec_os_match(p.os, os)
}

/// The names of the selected packages, in configuration order.
pub open spec fn spec_select(
    pairs: Seq<(String, Package)>,
    tags: Option<Seq<Seq<char>>>,
    os: Seq<char>,
) -> Seq<Seq<char>>
    decreases pairs.len(),
{
    if pairs.len() == 0 {
        Seq::empty()
    } else {
        spec_select(pairs.drop_last(), tags, os) + (if spec_selected(pairs.last().1@, tags, os) {
            seq![pairs.last().0@]
        } else {
            Seq::empty()
        })
    }
}

/// The whole selection: the effective profile's tag list (when that profile
/// is configured) filters by tag, and the operating system filters by `os`.
pub open spec fn spec_selection(
    cfg: &Config,
    profile: Option<Seq<char>>,
    active: Option<Option<Seq<char>>>,
    os: Seq<char>,
) -> Seq<Seq<char>> {
    let eff = spec_effective_profile(
        profile,
        match active {
            Some(a) => a,
            None => None,
        },
    );
    let tags = if cfg.profiles@.contains_key(eff) {
        Some(cfg.profiles@[eff])
    } else {
        None
    };
    spec_select(cfg.packages.pairs(), tags, os)
}

/// Whether the package carries one of the given tags.
fn tag_match(tags: &Vec<String>, pkg: &Package) -> (r: bool)
    ensures
        r == spec_tag_match(Some(tags.deep_view()), pkg@.tags),
{
    let mut i: usize = 0;
    while i < pkg.tags.len()
        invariant
            i <= pkg.tags@.len(),
            forall|j: int| 0 <= j < i ==> !tags.deep_view().contains(#[trigger] pkg@.tags[j]),
        decreases pkg.tags@.len() - i,
    {
        if contains_string(tags, &pkg.tags[i]) {
            proof {
                assert(tags.deep_view().contains(pkg@.tags[i as int]));
            }
            return true;
        }
        i = i + 1;
    }
    proof {
        if spec_tag_match(Some(tags.deep_view()), pkg@.tags) {
            let j = choose|j: int|
                0 <= j < pkg@.tags.len() && tags.deep_view().contains(#[trigger] pkg@.tags[j]);
            assert(!tags.deep_view().contains(pkg@.tags[j]));
        }
    }
    false
}

/// Whether the package applies on this operating system.
fn os_match(pkg: &Package, os: &String) -> (r: bool)
    ensures
        r == spec_os_match(pkg@.os, os@),
{
    if pkg.os.len() == 0 {
        return true;
    }
    contains_string(&pkg.os, os)
}

/// The names of the packages the effective profile selects on this
/// operating system, in configuration order.
pub fn select_packages(
    cfg: &Config,
    profile: Option<&String>,
    state: Option<&State>,
    os: &String,
) -> (r: Vec<String>)
    requires
        cfg.wf(),
    ensures
        r.deep_view() == spec_selection(
            cfg,
            profile.deep_view(),
            match state {
                Some(st) => Some(st@.active_profile),
                None => None,
            },
            os@,
        ),
{
    let effective: String = match profile {
        Some(p) => p.clone(),
        None => match state {
            Some(st) => match &st.active_profile {
                Some(a) => a.clone(),
                None => String::from_str("default"),
            },
            None => String::from_str("default"),
        },
    };
    let tags: Option<&Vec<String>> = cfg.profiles.get(&effective);
    let ghost tags_view = match tags {
        Some(ts) => Some(ts.deep_view()),
        None => None,
    };
    let n = cfg.packages.len();
    let mut out: Vec<String> = Vec::new();
    let mut i: usize = 0;
    proof {
        assert(out.deep_view() =~= spec_select(cfg.packages.pairs().subrange(0, 0), tags_view, os@));
    }
    while i < n
        invariant
            i <= n,
            n == cfg.packages.pairs().len(),
            tags matches Some(ts) ==> tags_view == Some(ts.deep_view()),
            tags is None ==> tags_view is None,
            out.deep_view() == spec_select(
                cfg.packages.pairs().subrange(0, i as int),
                tags_view,
                os@,
            ),
        decreases n - i,
    {
        let e = cfg.packages.entry_at(i);
        let tag_ok = match tags {
            Some(ts) => tag_match(ts, &e.1),
            None => true,
        };
        let selected = tag_ok && os_match(&e.1, os);
        if selected {
            out.push(e.0.clone());
        }
        proof {
            assert(cfg.packages.pairs().subrange(0, i + 1 as int).drop_last() =~= cfg.packages
                .pairs().subrange(0, i as int));
            assert(cfg.packages.pairs().subrange(0, i + 1 as int).last() == cfg.packages.pairs()[i as int]);
            assert(out.deep_view() =~= spec_select(
                cfg.packages.pairs().subrange(0, i + 1 as int),
                tags_view,
                os@,
            ));
        }
        i = i + 1;
    }
    proof {
        assert(cfg.packages.pairs().subrange(0, n as int) =~= cfg.packages.pairs());
    }
    out
}

/// The first position of `c` in `s`; the length when `c` is absent.
pub open spec fn find_char(s: Seq<char>, c: char) -> int
    decreases s.len(),
{
    if s.len() == 0 {
        0
    } else if s[0] == c {
        0
    } else {
        1 + find_char(s.drop_first(), c)
    }
}

proof fn lemma_find_char_at(s: Seq<char>, c: char, i: int)
    requires
        0 <= i <= s.len(),
        forall|j: int| 0 <= j < i ==> s[j] != c,
        i == s.len() || s[i] == c,
    ensures
        find_char(s, c) == i,
    decreases i,
{
    if i > 0 {
        assert(s.drop_first() =~= s.skip(1));
        lemma_find_char_at(s.skip(1), c, i - 1);
    }
}

/// Splits `pkg@version` into the package name and the version override; an
/// input without `@` is all name.
pub fn parse_pkg_and_version(input: &String) -> (r: (String, Option<String>))
    ensures
        ({
            let k = find_char(input@, '@');
            &&& r.0@ == input@.take(k)
            &&& (k == input@.len() ==> r.1 is None)
            &&& (k < input@.len() ==> (r.1 matches Some(v) && v@ == input@.skip(k + 1)))
        }),
{
    let chars = to_chars(input.as_str());
    let n = chars.len();
    let mut i: usize = 0;
    while i < n && chars[i] != '@'
        invariant
            i <= n,
            n == chars@.len(),
            chars@ == input@,
            forall|j: int| 0 <= j < i ==> chars@[j] != '@',
        decreases n - i,
    {
        i = i + 1;
    }
    proof {
        lemma_find_char_at(input@, '@', i as int);
    }
    let mut name_chars: Vec<char> = Vec::new();
    let mut j: usize = 0;
    while j < i
        invariant
            j <= i <= n,
            n == chars@.len(),
            chars@ == input@,
            name_chars@ == input@.subrange(0, j as int),
        decreases i - j,
    {
        name_chars.push(chars[j]);
        j = j + 1;
        proof {
            assert(name_chars@ =~= input@.subrange(0, j as int));
        }
    }
    let name = from_chars(&name_chars);
    proof {
        assert(input@.subrange(0, i as int) =~= input@.take(i as int));
    }
    if i == n {
        (name, None)
    } else {
        let mut ver_chars: Vec<char> = Vec::new();
        let mut k: usize = i + 1;
        while k < n
            invariant
                i + 1 <= k <= n,
                n == chars@.len(),
                chars@ == input@,
                ver_chars@ == input@.subrange(i + 1 as int, k as int),
            decreases n - k,
        {
            ver_chars.push(chars[k]);
            k = k + 1;
            proof {
                assert(ver_chars@ =~= input@.subrange(i + 1 as int, k as int));
            }
        }
        proof {
            assert(input@.subrange(i + 1 as int, n as int) =~= input@.skip(i + 1 as int));
        }
        (name, Some(from_chars(&ver_chars)))
    }
}

/// The name part of a `name@version` argument.
pub open spec fn parsed_name(s: Seq<char>) -> Seq<char> {
    s.take(find_char(s, '@'))
}

/// The two batch operations.
#[derive(Debug, Clone, Copy, PartialEq, Eq, Structural)]
pub enum PkgAction {
    /// Create the links.
    Link,
    /// Remove the links.
    Remove,
}

/// The model after one batch item: what `link_package` or `remove_package`
/// leaves behind for the package named in `raw`, run against `m`.  An
/// unknown package, a failing link, and a dry run leave `m` unchanged.
pub open spec fn spec_step_map(
    m: Map<Seq<char>, crate::fsmodel::VEntry>,
    cfg: &Config,
    state: &State,
    raw: Seq<char>,
    action: PkgAction,
    prompt: Option<bool>,
    dry_run: bool,
) -> Map<Seq<char>, crate::fsmodel::VEntry> {
    let name = parsed_name(raw);
    if !cfg.packages@.contains_key(name) || dry_run {
        m
    } else {
        let p = cfg.packages@[name];
        match action {
            PkgAction::Link => {
                if crate::linker::spec_link_err(m, env_of(cfg, state), name, p, prompt) is Some {
                    m
                } else {
                    crate::linker::spec_link_map(m, env_of(cfg, state), name, p)
                }
            },
            PkgAction::Remove => crate::linker::spec_remove_map(m, env_of(cfg, state), name, p),
        }
    }
}

/// The model after the first items of a batch, folded left to right.
pub open spec fn spec_batch_map(
    m: Map<Seq<char>, crate::fsmodel::VEntry>,
    cfg: &Config,
    state: &State,
    raws: Seq<Seq<char>>,
    action: PkgAction,
    prompt: Option<bool>,
    dry_run: bool,
) -> Map<Seq<char>, crate::fsmodel::VEntry>
    decreases raws.len(),
{
    if raws.len() == 0 {
        m
    } else {
        spec_step_map(
            spec_batch_map(m, cfg, state, raws.drop_last(), action, prompt, dry_run),
            cfg,
            state,
            raws.last(),
            action,
            prompt,
            dry_run,
        )
    }
}

/// One correct batch entry for the argument `raw`, judged against the model
/// `m` as the preceding items left it: the parsed name; a configuration
/// error exactly for an unknown package; for `Link` the outcome of
/// `link_package` on `m` (failure exactly when the engine fails there, and
/// a returned plan that replays to the linked model); for `Remove` success
/// with a plan that replays to the removed model.
pub open spec fn spec_batch_item_ok(
    m: Map<Seq<char>, crate::fsmodel::VEntry>,
    cfg: &Config,
    state: &State,
    raw: Seq<char>,
    action: PkgAction,
    prompt: Option<bool>,
    entry: (String, Result<Vec<FsAction>, Error>),
) -> bool {
    let name = parsed_name(raw);
    &&& entry.0@ == name
    &&& if !cfg.packages@.contains_key(name) {
        entry.1 matches Err(e) && e is InvalidConfig
    } else {
        let p = cfg.packages@[name];
        match action {
            PkgAction::Link => {
                &&& (entry.1 is Err <==> crate::linker::spec_link_err(
                    m,
                    env_of(cfg, state),
                    name,
                    p,
                    prompt,
                ) is Some)
                &&& (entry.1 matches Ok(plan) ==> crate::fsmodel::spec_apply(m, plan@)
                    == crate::linker::spec_link_map(m, env_of(cfg, state), name, p))
                &&& (entry.1 matches Err(e) ==> {
                    &&& (crate::linker::spec_link_err(m, env_of(cfg, state), name, p, prompt)
                        == Some(crate::linker::LinkFailure::MissingSource) ==> e is InvalidConfig)
                    &&& (crate::linker::spec_link_err(m, env_of(cfg, state), name, p, prompt)
                        == Some(crate::linker::LinkFailure::PromptDeclined) ==> e is Conflict)
                })
            },
            PkgAction::Remove => {
                &&& entry.1 is Ok
                &&& (entry.1 matches Ok(plan) ==> crate::fsmodel::spec_apply(m, plan@)
                    == crate::linker::spec_remove_map(m, env_of(cfg, state), name, p))
            },
        }
    }
}

/// Runs one operation over a list of `name` or `name@version` arguments.
/// One package's failure never stops the rest: every argument gets its own
/// result, in order, and each result is exactly the engine's outcome on the
/// model as the preceding items left it.  The final model is the left fold
/// of the per-item steps; under `dry_run` nothing in the model (and so on
/// the filesystem) changes.
pub fn process_packages(
    names: &Vec<String>,
    action: PkgAction,
    cfg: &Config,
    state: &State,
    dry_run: bool,
    prompt: Option<bool>,
    fs: &mut FsModel,
) -> (r: Vec<(String, Result<Vec<FsAction>, Error>)>)
    requires
        cfg.wf(),
        state.wf(),
        old(fs).wf(),
    ensures
        final(fs).wf(),
        r@.len() == names@.len(),
        final(fs)@ =~= spec_batch_map(
            old(fs)@,
            cfg,
            state,
            names.deep_view(),
            action,
            prompt,
            dry_run,
        ),
        dry_run ==> final(fs)@ =~= old(fs)@,
        forall|i: int|
            0 <= i < r@.len() ==> spec_batch_item_ok(
                spec_batch_map(
                    old(fs)@,
                    cfg,
                    state,
                    names.deep_view().subrange(0, i),
                    action,
                    prompt,
                    dry_run,
                ),
                cfg,
                state,
                names.deep_view()[i],
                action,
                prompt,
                #[trigger] r@[i],
            ),
{
    let n = names.len();
    let mut out: Vec<(String, Result<Vec<FsAction>, Error>)> = Vec::new();
    let mut i: usize = 0;
    proof {
        assert(names.deep_view().subrange(0, 0) =~= Seq::<Seq<char>>::empty());
    }
    while i < n
        invariant
            i <= n,
            n == names@.len(),
            names.deep_view().len() == n,
            cfg.wf(),
            state.wf(),
            fs.wf(),
            out@.len() == i,
            fs@ =~= spec_batch_map(
                old(fs)@,
                cfg,
                state,
                names.deep_view().subrange(0, i as int),
                action,
                prompt,
                dry_run,
            ),
            dry_run ==> fs@ =~= old(fs)@,
            forall|j: int|
                0 <= j < i ==> spec_batch_item_ok(
                    spec_batch_map(
                        old(fs)@,
                        cfg,
                        state,
                        names.deep_view().subrange(0, j),
                        action,
                        prompt,
                        dry_run,
                    ),
                    cfg,
                    state,
                    names.deep_view()[j],
                    action,
                    prompt,
                    #[trigger] out@[j],
                ),
        decreases n - i,
    {
        let ghost m_before = fs@;
        let ghost raw = names.deep_view()[i as int];
        let (name, ver) = parse_pkg_and_version(&names[i]);
        proof {
            assert(name@ == parsed_name(raw));
        }
        let entry_result: Result<Vec<FsAction>, Error> = match cfg.packages.get(&name) {
            None => Err(
                Error::InvalidConfig(
                    crate::strutil::concat_str("unknown package: ", name.as_str()),
                ),
            ),
            Some(pkg) => match action {
                PkgAction::Link => link_package(
                    &name,
                    pkg,
                    cfg,
                    state,
                    ver.as_ref(),
                    dry_run,
                    prompt,
                    fs,
                ),
                PkgAction::Remove => remove_package(&name, pkg, cfg, state, ver.as_ref(), dry_run, fs),
            },
        };
        proof {
            assert(spec_batch_item_ok(m_before, cfg, state, raw, action, prompt, (name, entry_result)));
            assert(fs@ =~= spec_step_map(m_before, cfg, state, raw, action, prompt, dry_run));
            assert(names.deep_view().subrange(0, i + 1 as int).drop_last() =~= names.deep_view()
                .subrange(0, i as int));
            assert(names.deep_view().subrange(0, i + 1 as int).last() == raw);
        }
        out.push((name, entry_result));
        i = i + 1;
    }
    proof {
        assert(names.deep_view().subrange(0, n as int) =~= names.deep_view());
    }
    out
}

/// One row of the status report.
#[derive(Debug, Clone)]
pub struct StatusItem {
    /// The package name.
    pub name: String,
    /// The resolved target path, empty when the package is unknown.
    pub target: String,
    /// One of `ok`, `broken`, `not-symlink`, `missing` or `error`.
    pub status: String,
}

/// The report word for a status kind.
pub open spec fn spec_status_str(k: LinkStatusKind) -> Seq<char> {
    match k {
        LinkStatusKind::Okay => "ok"@,
        LinkStatusKind::BrokenSymlink => "broken"@,
        LinkStatusKind::NotSymlink => "not-symlink"@,
        LinkStatusKind::Missing => "missing"@,
    }
}

/// The report word for a status kind.
pub fn status_kind_str(k: &LinkStatusKind) -> (r: String)
    ensures
        r@ == spec_status_str(*k),
{
    match k {
        LinkStatusKind::Okay => String::from_str("ok"),
        LinkStatusKind::BrokenSymlink => String::from_str("broken"),
        LinkStatusKind::NotSymlink => String::from_str("not-symlink"),
        LinkStatusKind::Missing => String::from_str("missing"),
    }
}

/// One correct status row for the package called `nm`.
pub open spec fn spec_item_ok(
    it: StatusItem,
    nm: Seq<char>,
    cfg: &Config,
    state: &State,
    m: Map<Seq<char>, crate::fsmodel::VEntry>,
) -> bool {
    &&& it.name@ == nm
    &&& if cfg.packages@.contains_key(nm) {
        it.status@ == spec_status_str(spec_status(m, env_of(cfg, state), nm, cfg.packages@[nm]))
            && it.target@ == spec_target(env_of(cfg, state), nm, cfg.packages@[nm])
    } else {
        it.status@ == "error"@ && it.target@ == Seq::<char>::empty()
    }
}

/// The status rows for the given package names, computed fresh from the
/// model.  Unknown names report `error` with an empty target.
pub fn status_items(
    names: &Vec<String>,
    cfg: &Config,
    state: &State,
    fs: &FsModel,
) -> (r: Vec<StatusItem>)
    requires
        cfg.wf(),
        state.wf(),
        fs.wf(),
    ensures
        r@.len() == names@.len(),
        forall|i: int|
            0 <= i < r@.len() ==> spec_item_ok(
                #[trigger] r@[i],
                names.deep_view()[i],
                cfg,
                state,
                fs@,
            ),
{
    let n = names.len();
    let mut out: Vec<StatusItem> = Vec::new();
    let mut i: usize = 0;
    while i < n
        invariant
            i <= n,
            n == names@.len(),
            cfg.wf(),
            state.wf(),
            fs.wf(),
            out@.len() == i,
            forall|j: int|
                0 <= j < i ==> spec_item_ok(#[trigger] out@[j], names.deep_view()[j], cfg, state, fs@),
        decreases n - i,
    {
        let name = &names[i];
        let item = match cfg.packages.get(name) {
            None => StatusItem {
                name: name.clone(),
                target: String::new(),
                status: String::from_str("error"),
            },
            Some(pkg) => match status_package(name, pkg, cfg, state, fs) {
                Ok(st) => StatusItem {
                    name: name.clone(),
                    target: st.target,
                    status: status_kind_str(&st.kind),
                },
                Err(_) => StatusItem {
                    name: name.clone(),
                    target: String::new(),
                    status: String::from_str("error"),
                },
            },
        };
        proof {
            assert(spec_item_ok(item, names.deep_view()[i as int], cfg, state, fs@));
        }
        out.push(item);
        i = i + 1;
    }
    out
}

/// One rendered status row, as the JSON report prints it.
pub open spec fn spec_render_item(it: StatusItem) -> Seq<char> {
    "  {\n    \"name\": "@ + quoted(it.name@) + ",\n    \"target\": "@ + quoted(it.target@)
        + ",\n    \"status\": "@ + quoted(it.status@) + "\n  }"@
}

/// The rendered rows, separated by commas.
pub open spec fn spec_render_rows(s: Seq<StatusItem>) -> Seq<char>
    decreases s.len(),
{
    if s.len() == 0 {
        Seq::empty()
    } else if s.len() == 1 {
        spec_render_item(s[0])
    } else {
        spec_render_rows(s.drop_last()) + ",\n"@ + spec_render_item(s.last())
    }
}

/// The whole JSON status report.
pub open spec fn spec_render_status_json(s: Seq<StatusItem>) -> Seq<char> {
    if s.len() == 0 {
        "[]"@
    } else {
        "[\n"@ + spec_render_rows(s) + "\n]"@
    }
}

/// One rendered status row.
fn render_item(it: &StatusItem) -> (r: String)
    ensures
        r@ == spec_render_item(*it),
{
    let mut out = String::from_str("  {\n    \"name\": ");
    let qn = quote(&it.name);
    out.append(qn.as_str());
    out.append(",\n    \"target\": ");
    let qt = quote(&it.target);
    out.append(qt.as_str());
    out.append(",\n    \"status\": ");
    let qs = quote(&it.status);
    out.append(qs.as_str());
    out.append("\n  }");
    out
}

/// The JSON status report: a pretty-printed array of rows with the
/// package name, the resolved target and the status word.
pub fn render_status_json(items: &Vec<StatusItem>) -> (r: String)
    ensures
        r@ == spec_render_status_json(items@),
{
    let n = items.len();
    if n == 0 {
        return String::from_str("[]");
    }
    let mut out = String::from_str("[\n");
    let mut i: usize = 0;
    while i < n
        invariant
            i <= n,
            n == items@.len(),
            n >= 1,
            i == 0 ==> out@ == "[\n"@,
            i >= 1 ==> out@ == "[\n"@ + spec_render_rows(items@.subrange(0, i as int)),
        decreases n - i,
    {
        if i > 0 {
            out.append(",\n");
        }
        let row = render_item(&items[i]);
        out.append(row.as_str());
        proof {
            assert(items@.subrange(0, i + 1 as int).drop_last() =~= items@.subrange(0, i as int));
            assert(items@.subrange(0, i + 1 as int).last() == items@[i as int]);
            if i == 0 {
                assert(items@.subrange(0, 1).len() == 1);
                assert(items@.subrange(0, 1)[0] == items@[0]);
                assert(out@ =~= "[\n"@ + spec_render_rows(items@.subrange(0, 1)));
            } else {
                assert(out@ =~= "[\n"@ + spec_render_rows(items@.subrange(0, i + 1 as int)));
            }
        }
        i = i + 1;
    }
    proof {
        assert(items@.subrange(0, n as int) =~= items@);
    }
    out.append("\n]");
    out
}

/// What the line-mode shell does with one input line.
pub enum ReplAction {
    /// A blank line: prompt again.
    Empty,
    /// Leave the shell.
    Exit,
    /// Print the command summary.
    Help,
    /// Run these arguments as a command.
    Execute(Vec<String>),
}

/// The length of the leading non-blank run.
pub open spec fn token_len(s: Seq<char>) -> int
    decreases s.len(),
{
    if s.len() == 0 {
        0
    } else if is_ws(s[0]) {
        0
    } else {
        1 + token_len(s.drop_first())
    }
}

proof fn lemma_token_len_bounds(s: Seq<char>)
    ensures
        0 <= token_len(s) <= s.len(),
    decreases s.len(),
{
    if s.len() > 0 && !is_ws(s[0]) {
        lemma_token_len_bounds(s.drop_first());
    }
}

/// The blank-separated words of `s`, in order.
pub open spec fn tokens(s: Seq<char>) -> Seq<Seq<char>>
    decreases s.len(),
    via tokens_decreases
{
    if s.len() == 0 {
        Seq::empty()
    } else if is_ws(s[0]) {
        tokens(s.drop_first())
    } else {
        seq![s.take(token_len(s))] + tokens(s.skip(token_len(s)))
    }
}

#[via_fn]
proof fn tokens_decreases(s: Seq<char>) {
    lemma_token_len_bounds(s);
    if s.len() > 0 && !is_ws(s[0]) {
        lemma_token_len_bounds(s.drop_first());
        assert(token_len(s) >= 1);
    }
}

proof fn lemma_token_len_at(s: Seq<char>, i: int)
    requires
        0 <= i <= s.len(),
        forall|j: int| 0 <= j < i ==> !is_ws(#[trigger] s[j]),
        i == s.len() || is_ws(s[i]),
    ensures
        token_len(s) == i,
    decreases i,
{
    if i > 0 {
        assert(s.drop_first() =~= s.skip(1));
        lemma_token_len_at(s.skip(1), i - 1);
    }
}

/// The blank-separated words of `v` from position `i`.
fn tokenize(v: &Vec<char>, i: usize) -> (r: Vec<String>)
    requires
        i <= v@.len(),
    ensures
        r.deep_view() == tokens(v@.skip(i as int)),
    decreases v@.len() - i,
{
    let ghost s = v@.skip(i as int);
    if i == v.len() {
        let r: Vec<String> = Vec::new();
        proof {
            assert(r.deep_view() =~= tokens(s));
        }
        return r;
    }
    let c = v[i];
    if c == ' ' || c == '\t' || c == '\r' || c == '\n' {
        proof {
            assert(s.drop_first() =~= v@.skip(i + 1 as int));
        }
        return tokenize(v, i + 1);
    }
    let mut j: usize = i;
    while j < v.len() && v[j] != ' ' && v[j] != '\t' && v[j] != '\r' && v[j] != '\n'
        invariant
            i <= j <= v@.len(),
            forall|k: int| i <= k < j ==> !is_ws(#[trigger] v@[k]),
        decreases v@.len() - j,
    {
        j = j + 1;
    }
    proof {
        assert(forall|k: int| 0 <= k < j - i ==> !is_ws(#[trigger] s[k]));
        lemma_token_len_at(s, j - i);
    }
    let mut word_chars: Vec<char> = Vec::new();
    let mut k: usize = i;
    while k < j
        invariant
            i <= k <= j <= v@.len(),
            word_chars@ == v@.subrange(i as int, k as int),
        decreases j - k,
    {
        word_chars.push(v[k]);
        k = k + 1;
        proof {
            assert(word_chars@ =~= v@.subrange(i as int, k as int));
        }
    }
    let word = from_chars(&word_chars);
    proof {
        assert(v@.subrange(i as int, j as int) =~= s.take(j - i));
        assert(v@.skip(j as int) =~= s.skip(j - i));
    }
    let rest = tokenize(v, j);
    let ghost word_snap = word;
    let mut out: Vec<String> = Vec::new();
    out.push(word);
    let mut m: usize = 0;
    while m < rest.len()
        invariant
            m <= rest@.len(),
            word_snap@ == s.take(token_len(s)),
            rest.deep_view() == tokens(s.skip(token_len(s))),
            out@ == seq![word_snap] + rest@.subrange(0, m as int),
        decreases rest@.len() - m,
    {
        out.push(rest[m].clone());
        m = m + 1;
        proof {
            assert(out@ =~= seq![word_snap] + rest@.subrange(0, m as int));
        }
    }
    proof {
        assert(out@ =~= seq![word_snap] + rest@);
        assert(out.deep_view() =~= seq![word_snap@] + rest.deep_view());
        assert(out.deep_view() =~= tokens(s));
    }
    out
}

/// What the shell does with one input line: blank lines prompt again,
/// `exit` and `quit` leave, `help` prints the summary, and anything else
/// runs as a command split on blanks.
pub fn repl_step(line: &String) -> (r: ReplAction)
    ensures
        trim(line@).len() == 0 ==> r is Empty,
        trim(line@) == "exit"@ || trim(line@) == "quit"@ ==> r is Exit,
        trim(line@) == "help"@ ==> r is Help,
        trim(line@).len() > 0 && trim(line@) != "exit"@ && trim(line@) != "quit"@ && trim(line@)
            != "help"@ ==> (r matches ReplAction::Execute(args) && args.deep_view() == tokens(
            trim(line@),
        )),
{
    proof {
        reveal_strlit("exit");
        reveal_strlit("quit");
        reveal_strlit("help");
        assert("help"@[0] == 'h' && "exit"@[0] == 'e' && "quit"@[0] == 'q');
        assert("help"@ != "exit"@ && "help"@ != "quit"@ && "exit"@ != "quit"@);
    }
    let t = trim_to_chars(line);
    if t.len() == 0 {
        return ReplAction::Empty;
    }
    let ts = from_chars(&t);
    if ts == String::from_str("exit") || ts == String::from_str("quit") {
        return ReplAction::Exit;
    }
    if ts == String::from_str("help") {
        return ReplAction::Help;
    }
    proof {
        assert(t@.skip(0) =~= t@);
    }
    ReplAction::Execute(tokenize(&t, 0))
}

} // verus!
