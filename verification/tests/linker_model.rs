use rinkle::config::Config;
use rinkle::config::ConflictStrategy;
use rinkle::config::Global;
use rinkle::config::Package;
use rinkle::config::Vsc;
use rinkle::dict::Dict;
use rinkle::fsmodel::FsEntry;
use rinkle::fsmodel::FsModel;
use rinkle::linker::link_package;
use rinkle::linker::remove_package;
use rinkle::linker::resolve_paths;
use rinkle::linker::status_package;
use rinkle::linker::LinkStatusKind;
use rinkle::state::State;

fn base_cfg(source: &str, target: &str) -> Config {
    Config {
        global: Global {
            source_dir: Some(source.to_string()),
            target_dir: Some(target.to_string()),
            conflict_strategy: ConflictStrategy::Backup,
            ignore: vec![],
        },
        vsc: Vsc { template: None, default_version: None },
        profiles: Dict::new(),
        packages: Dict::new(),
    }
}

fn dir_at(fs: &mut FsModel, path: &str) {
    fs.insert(path.to_string(), FsEntry::Dir);
}

#[test]
fn status_missing_then_ok() {
    let mut cfg = base_cfg("/src", "/tgt");
    cfg.packages.insert("nvim".to_string(), Package::default());
    let state = State::default();
    let mut fs: FsModel = Dict::new();
    dir_at(&mut fs, "/src/nvim");

    let pkg = Package::default();
    let st1 = status_package(&"nvim".to_string(), &pkg, &cfg, &state, &fs).unwrap();
    assert!(matches!(st1.kind, LinkStatusKind::Missing));

    link_package(&"nvim".to_string(), &pkg, &cfg, &state, None, false, None, &mut fs).unwrap();
    let st2 = status_package(&"nvim".to_string(), &pkg, &cfg, &state, &fs).unwrap();
    assert!(matches!(st2.kind, LinkStatusKind::Okay));
    assert_eq!(st2.target, "/tgt/nvim");
    match fs.get(&"/tgt/nvim".to_string()) {
        Some(FsEntry::Symlink(dest)) => assert_eq!(dest, "/src/nvim"),
        other => panic!("expected a symlink, found {:?}", other),
    }
}

#[test]
fn status_not_symlink_and_broken() {
    let mut cfg = base_cfg("/src", "/tgt");
    cfg.packages.insert("pkg".to_string(), Package::default());
    let state = State::default();
    let pkg = Package::default();

    let mut fs: FsModel = Dict::new();
    dir_at(&mut fs, "/src/pkg");
    // A regular file sits at the target path ("data" on disk).
    fs.insert("/tgt/pkg".to_string(), FsEntry::File);
    let st_not = status_package(&"pkg".to_string(), &pkg, &cfg, &state, &fs).unwrap();
    assert!(matches!(st_not.kind, LinkStatusKind::NotSymlink));

    // Replace it with a symlink pointing at some other directory.
    fs.remove(&"/tgt/pkg".to_string());
    dir_at(&mut fs, "/src/other");
    fs.insert("/tgt/pkg".to_string(), FsEntry::Symlink("/src/other".to_string()));
    let st_broken = status_package(&"pkg".to_string(), &pkg, &cfg, &state, &fs).unwrap();
    assert!(matches!(st_broken.kind, LinkStatusKind::BrokenSymlink));
}

#[test]
fn link_and_remove_real() {
    let mut cfg = base_cfg("/src", "/dst");
    cfg.packages.insert("mypkg".to_string(), Package::default());
    let state = State::default();
    let pkg = Package::default();
    let mut fs: FsModel = Dict::new();
    // The package source is a plain file holding "content".
    fs.insert("/src/mypkg".to_string(), FsEntry::File);

    link_package(&"mypkg".to_string(), &pkg, &cfg, &state, None, false, None, &mut fs).unwrap();
    match fs.get(&"/dst/mypkg".to_string()) {
        Some(FsEntry::Symlink(dest)) => assert_eq!(dest, "/src/mypkg"),
        other => panic!("expected a symlink, found {:?}", other),
    }

    remove_package(&"mypkg".to_string(), &pkg, &cfg, &state, None, false, &mut fs).unwrap();
    assert!(fs.get(&"/dst/mypkg".to_string()).is_none());
}

#[test]
fn dry_run_link_remove_ok() {
    let mut cfg = base_cfg("/src", "/dst");
    cfg.packages.insert("zsh".to_string(), Package::default());
    let state = State::default();
    let pkg = Package::default();
    let mut fs: FsModel = Dict::new();
    dir_at(&mut fs, "/src/zsh");

    assert!(link_package(&"zsh".to_string(), &pkg, &cfg, &state, None, true, None, &mut fs).is_ok());
    assert!(remove_package(&"zsh".to_string(), &pkg, &cfg, &state, None, true, &mut fs).is_ok());
    assert!(fs.get(&"/dst/zsh".to_string()).is_none());
}

#[test]
fn dry_run_no_side_effects() {
    let mut cfg = base_cfg("/src", "/dst");
    cfg.packages.insert("pkg".to_string(), Package::default());
    let state = State::default();
    let pkg = Package::default();
    let mut fs: FsModel = Dict::new();
    dir_at(&mut fs, "/src/pkg");

    link_package(&"pkg".to_string(), &pkg, &cfg, &state, None, true, None, &mut fs).unwrap();
    // No link was created.
    assert!(fs.get(&"/dst/pkg".to_string()).is_none());
}

#[test]
fn conflict_strategy_backup() {
    let mut cfg = base_cfg("/src", "/dst");
    cfg.global.conflict_strategy = ConflictStrategy::Backup;
    cfg.packages.insert("pkg".to_string(), Package::default());
    let state = State::default();
    let pkg = Package::default();
    let mut fs: FsModel = Dict::new();
    dir_at(&mut fs, "/src/pkg");
    // A conflicting regular file sits at the target ("data" on disk).
    fs.insert("/dst/pkg".to_string(), FsEntry::File);

    link_package(&"pkg".to_string(), &pkg, &cfg, &state, None, false, None, &mut fs).unwrap();

    // The original entry moved to the .bak path and a correct link exists.
    assert!(matches!(fs.get(&"/dst/pkg.bak".to_string()), Some(FsEntry::File)));
    match fs.get(&"/dst/pkg".to_string()) {
        Some(FsEntry::Symlink(dest)) => assert_eq!(dest, "/src/pkg"),
        other => panic!("expected a symlink, found {:?}", other),
    }
}

#[test]
fn conflict_strategy_overwrite_and_skip() {
    let state = State::default();
    let pkg = Package::default();

    let mut cfg = base_cfg("/src", "/dst");
    cfg.global.conflict_strategy = ConflictStrategy::Overwrite;
    cfg.packages.insert("pkg".to_string(), Package::default());
    let mut fs: FsModel = Dict::new();
    dir_at(&mut fs, "/src/pkg");
    fs.insert("/dst/pkg".to_string(), FsEntry::Dir);
    link_package(&"pkg".to_string(), &pkg, &cfg, &state, None, false, None, &mut fs).unwrap();
    assert!(matches!(fs.get(&"/dst/pkg".to_string()), Some(FsEntry::Symlink(_))));

    let mut cfg2 = base_cfg("/src", "/dst");
    cfg2.global.conflict_strategy = ConflictStrategy::Skip;
    cfg2.packages.insert("pkg".to_string(), Package::default());
    let mut fs2: FsModel = Dict::new();
    dir_at(&mut fs2, "/src/pkg");
    fs2.insert("/dst/pkg".to_string(), FsEntry::File);
    // Skip leaves the conflicting entry untouched and still succeeds.
    link_package(&"pkg".to_string(), &pkg, &cfg2, &state, None, false, None, &mut fs2).unwrap();
    assert!(matches!(fs2.get(&"/dst/pkg".to_string()), Some(FsEntry::File)));
}

#[test]
fn conflict_strategy_prompt() {
    let state = State::default();
    let pkg = Package::default();
    let mut cfg = base_cfg("/src", "/dst");
    cfg.global.conflict_strategy = ConflictStrategy::Prompt;
    cfg.packages.insert("pkg".to_string(), Package::default());

    let mut fs: FsModel = Dict::new();
    dir_at(&mut fs, "/src/pkg");
    fs.insert("/dst/pkg".to_string(), FsEntry::File);

    // Non-interactive input: the conflict is an error.
    let r = link_package(&"pkg".to_string(), &pkg, &cfg, &state, None, false, None, &mut fs);
    assert!(matches!(r, Err(rinkle::error::Error::Conflict(_))));
    // A declined prompt is an error too.
    let r = link_package(&"pkg".to_string(), &pkg, &cfg, &state, None, false, Some(false), &mut fs);
    assert!(matches!(r, Err(rinkle::error::Error::Conflict(_))));
    // An affirmative answer overwrites.
    link_package(&"pkg".to_string(), &pkg, &cfg, &state, None, false, Some(true), &mut fs).unwrap();
    assert!(matches!(fs.get(&"/dst/pkg".to_string()), Some(FsEntry::Symlink(_))));
}

#[test]
fn missing_source_is_config_error() {
    let mut cfg = base_cfg("/src", "/dst");
    cfg.packages.insert("ghost".to_string(), Package::default());
    let state = State::default();
    let pkg = Package::default();
    let mut fs: FsModel = Dict::new();

    let r = link_package(&"ghost".to_string(), &pkg, &cfg, &state, None, false, None, &mut fs);
    match r {
        Err(rinkle::error::Error::InvalidConfig(msg)) => {
            assert_eq!(msg, "source missing: /src/ghost");
        }
        other => panic!("expected a config error, found {:?}", other),
    }
}

#[test]
fn link_is_idempotent() {
    let mut cfg = base_cfg("/src", "/tgt");
    cfg.packages.insert("nvim".to_string(), Package::default());
    let state = State::default();
    let pkg = Package::default();
    let mut fs: FsModel = Dict::new();
    dir_at(&mut fs, "/src/nvim");

    link_package(&"nvim".to_string(), &pkg, &cfg, &state, None, false, None, &mut fs).unwrap();
    let len_after_first = fs.len();
    // The second run succeeds and changes nothing.
    link_package(&"nvim".to_string(), &pkg, &cfg, &state, None, false, None, &mut fs).unwrap();
    assert_eq!(fs.len(), len_after_first);
    match fs.get(&"/tgt/nvim".to_string()) {
        Some(FsEntry::Symlink(dest)) => assert_eq!(dest, "/src/nvim"),
        other => panic!("expected a symlink, found {:?}", other),
    }
}

#[test]
fn vsc_version_selection_priority() {
    let mut cfg = base_cfg("/src", "/dst");
    cfg.vsc.default_version = Some("1".to_string());
    let pkg = Package {
        source: None,
        target: None,
        os: vec![],
        tags: vec![],
        default_version: Some("2".to_string()),
    };
    cfg.packages.insert("tool".to_string(), pkg.clone());
    let mut state = State::default();
    let mut fs: FsModel = Dict::new();
    dir_at(&mut fs, "/src/tool@1");
    dir_at(&mut fs, "/src/tool@2");

    // Without a pin the package default (2) wins over the global default.
    let (source, _target) = resolve_paths(&"tool".to_string(), &pkg, &cfg, &state, &fs).unwrap();
    assert_eq!(source, "/src/tool@2");
    link_package(&"tool".to_string(), &pkg, &cfg, &state, None, false, None, &mut fs).unwrap();
    match fs.get(&"/dst/tool".to_string()) {
        Some(FsEntry::Symlink(dest)) => assert_eq!(dest, "/src/tool@2"),
        other => panic!("expected a symlink, found {:?}", other),
    }

    // Pinned tool -> 1: a fresh link resolves to tool@1.
    state.set_pin("tool".to_string(), "1".to_string());
    fs.remove(&"/dst/tool".to_string());
    link_package(&"tool".to_string(), &pkg, &cfg, &state, None, false, None, &mut fs).unwrap();
    match fs.get(&"/dst/tool".to_string()) {
        Some(FsEntry::Symlink(dest)) => assert_eq!(dest, "/src/tool@1"),
        other => panic!("expected a symlink, found {:?}", other),
    }
}

#[test]
fn version_error_when_nothing_set() {
    let cfg = base_cfg("/src", "/dst");
    let state = State::default();
    let r = rinkle::linker::pick_version(&"tool".to_string(), &Package::default(), &cfg, &state);
    match r {
        Err(rinkle::error::Error::Version(msg)) => assert_eq!(msg, "no version for tool"),
        other => panic!("expected a version error, found {:?}", other),
    }
}

#[test]
fn expand_path_plain_is_unchanged() {
    let p = "/plain/path".to_string();
    assert_eq!(rinkle::linker::expand_path(&p), "/plain/path");
}
