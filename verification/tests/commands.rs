use rinkle::app::parse_pkg_and_version;
use rinkle::app::process_packages;
use rinkle::app::render_status_json;
use rinkle::app::repl_step;
use rinkle::app::select_packages;
use rinkle::app::status_items;
use rinkle::app::App;
use rinkle::app::Cli;
use rinkle::app::Commands;
use rinkle::app::PkgAction;
use rinkle::app::ReplAction;
use rinkle::config::default_config_path;
use rinkle::config::Config;
use rinkle::config::ConflictStrategy;
use rinkle::config::Global;
use rinkle::config::Package;
use rinkle::config::Vsc;
use rinkle::dict::Dict;
use rinkle::fsmodel::FsEntry;
use rinkle::fsmodel::FsModel;
use rinkle::state::State;
use rinkle::statefile::parse_state;
use rinkle::statefile::render_state;

fn base_cfg(source: &str, target: &str) -> Config {
    Config {
        global: Global {
            source_dir: Some(source.to_string()),
            target_dir: Some(target.to_string()),
            conflict_strategy: ConflictStrategy::Backup,
            ignore: vec![],
        },
        vsc: Vsc { template: None, default_version: None },
        profiles: Dict::new(),
        packages: Dict::new(),
    }
}

fn pkg_with_tags(tags: &[&str]) -> Package {
    Package {
        source: None,
        target: None,
        os: vec![],
        tags: tags.iter().map(|t| t.to_string()).collect(),
        default_version: None,
    }
}

#[test]
fn use_profile_and_filtering() {
    let mut cfg = base_cfg("/src", "/dst");
    cfg.profiles.insert("work".to_string(), vec!["w".to_string()]);
    cfg.profiles.insert("play".to_string(), vec!["p".to_string()]);
    cfg.packages.insert("pkg1".to_string(), pkg_with_tags(&["w"]));
    cfg.packages.insert("pkg2".to_string(), pkg_with_tags(&["p"]));

    let mut state = State::default();
    state.set_active_profile("work".to_string());

    let os = "linux".to_string();
    let selected = select_packages(&cfg, None, Some(&state), &os);
    assert_eq!(selected, vec!["pkg1".to_string()]);

    // The profile override wins over the saved profile.
    let play = "play".to_string();
    let selected = select_packages(&cfg, Some(&play), Some(&state), &os);
    assert_eq!(selected, vec!["pkg2".to_string()]);
}

#[test]
fn os_filtering() {
    let mut cfg = base_cfg("/src", "/dst");
    let mut linux_only = pkg_with_tags(&[]);
    linux_only.os = vec!["linux".to_string()];
    let mut mac_only = pkg_with_tags(&[]);
    mac_only.os = vec!["macos".to_string()];
    cfg.packages.insert("a".to_string(), linux_only);
    cfg.packages.insert("b".to_string(), mac_only);
    cfg.packages.insert("c".to_string(), pkg_with_tags(&[]));

    let selected = select_packages(&cfg, None, None, &"linux".to_string());
    assert_eq!(selected, vec!["a".to_string(), "c".to_string()]);
}

#[test]
fn parse_pkg_and_version_splits_on_at() {
    assert_eq!(parse_pkg_and_version(&"tool@1".to_string()), ("tool".to_string(), Some("1".to_string())));
    assert_eq!(parse_pkg_and_version(&"plain".to_string()), ("plain".to_string(), None));
    assert_eq!(parse_pkg_and_version(&"x@".to_string()), ("x".to_string(), Some(String::new())));
}

#[test]
fn batch_continues_after_failures() {
    let mut cfg = base_cfg("/src", "/dst");
    cfg.packages.insert("good".to_string(), Package::default());
    cfg.packages.insert("missing".to_string(), Package::default());
    let state = State::default();
    let mut fs: FsModel = Dict::new();
    fs.insert("/src/good".to_string(), FsEntry::Dir);

    let names = vec!["missing".to_string(), "unknown".to_string(), "good".to_string()];
    let results = process_packages(&names, PkgAction::Link, &cfg, &state, false, None, &mut fs);
    assert_eq!(results.len(), 3);
    assert!(results[0].1.is_err());
    assert!(results[1].1.is_err());
    assert!(results[2].1.is_ok());
    // The failing entries did not stop the good one.
    assert!(matches!(fs.get(&"/dst/good".to_string()), Some(FsEntry::Symlink(_))));
}

#[test]
fn status_json_structure() {
    let mut cfg = base_cfg("/src", "/dst");
    cfg.packages.insert("a".to_string(), Package::default());
    let state = State::default();
    let mut fs: FsModel = Dict::new();
    fs.insert("/src/a".to_string(), FsEntry::Dir);

    let names = vec!["a".to_string()];
    let items = status_items(&names, &cfg, &state, &fs);
    let json = render_status_json(&items);
    assert!(json.contains("\"name\": \"a\""));
    assert!(json.contains("\"status\""));
    assert_eq!(
        json,
        "[\n  {\n    \"name\": \"a\",\n    \"target\": \"/dst/a\",\n    \"status\": \"missing\"\n  }\n]"
    );
}

#[test]
fn list_and_status_json() {
    let mut cfg = base_cfg("/src", "/dst");
    cfg.packages.insert("zsh".to_string(), Package::default());
    let state = State::default();
    let mut fs: FsModel = Dict::new();
    fs.insert("/src/zsh".to_string(), FsEntry::Dir);

    // The package list holds zsh.
    assert_eq!(cfg.packages.len(), 1);
    assert_eq!(cfg.packages.key_at(0).as_str(), "zsh");

    let names = vec!["zsh".to_string()];
    let items = status_items(&names, &cfg, &state, &fs);
    let json = render_status_json(&items);
    assert!(json.contains("\"name\": \"zsh\""));
}

#[test]
fn app_new_resolves_config_path() {
    let cli = Cli {
        config: None,
        dry_run: false,
        profile: None,
        command: Commands::List,
    };
    let app = App::new(&cli, true);
    assert_eq!(app.config_path, "config/rinkle.toml");
    let app = App::new(&cli, false);
    assert_eq!(app.config_path, "rinkle.toml");
    assert_eq!(default_config_path(true), "config/rinkle.toml");

    let cli2 = Cli {
        config: Some("/etc/rinkle.toml".to_string()),
        dry_run: true,
        profile: Some("work".to_string()),
        command: Commands::Status { json: true },
    };
    let app2 = App::new(&cli2, false);
    assert_eq!(app2.config_path, "/etc/rinkle.toml");
    assert!(app2.dry_run);
    assert_eq!(app2.profile_override, Some("work".to_string()));
}

#[test]
fn repl_actions() {
    assert!(matches!(repl_step(&"".to_string()), ReplAction::Empty));
    assert!(matches!(repl_step(&"   \n".to_string()), ReplAction::Empty));
    assert!(matches!(repl_step(&"exit\n".to_string()), ReplAction::Exit));
    assert!(matches!(repl_step(&"quit".to_string()), ReplAction::Exit));
    assert!(matches!(repl_step(&"help".to_string()), ReplAction::Help));
    match repl_step(&"link a b@2\n".to_string()) {
        ReplAction::Execute(args) => {
            assert_eq!(args, vec!["link".to_string(), "a".to_string(), "b@2".to_string()]);
        }
        _ => panic!("expected an execute action"),
    }
}

#[test]
fn state_file_round_trip() {
    let mut st = State::default();
    st.set_active_profile("dev".to_string());
    st.set_pin("tool".to_string(), "1".to_string());
    st.set_pin("odd \"name\"".to_string(), "v\n2".to_string());

    let text = render_state(&st);
    assert!(text.starts_with("active_profile = \"dev\"\n[pinned_versions]\n"));
    let back = parse_state(&text).unwrap();
    assert_eq!(back.active_profile, Some("dev".to_string()));
    assert_eq!(back.pinned_versions.get(&"tool".to_string()), Some(&"1".to_string()));
    assert_eq!(
        back.pinned_versions.get(&"odd \"name\"".to_string()),
        Some(&"v\n2".to_string())
    );
}

#[test]
fn empty_state_file_is_default() {
    let st = parse_state(&String::new()).unwrap();
    assert!(st.active_profile.is_none());
    assert_eq!(st.pinned_versions.len(), 0);

    // A state with no profile renders to just the section header.
    let fresh = State::default();
    assert_eq!(render_state(&fresh), "[pinned_versions]\n");
    let back = parse_state(&"[pinned_versions]\n".to_string()).unwrap();
    assert!(back.active_profile.is_none());
}

#[test]
fn state_file_accepts_bare_keys_and_blank_lines() {
    // The layout a TOML serializer writes: a blank line before the section
    // header and bare pin keys.
    let text = "active_profile = \"dev\"\n\n[pinned_versions]\ntool = \"1\"\nother-pkg = \"v2.1\"\n";
    let st = parse_state(&text.to_string()).unwrap();
    assert_eq!(st.active_profile, Some("dev".to_string()));
    assert_eq!(st.pinned_versions.get(&"tool".to_string()), Some(&"1".to_string()));
    assert_eq!(st.pinned_versions.get(&"other-pkg".to_string()), Some(&"v2.1".to_string()));

    // A profile line with no section at all: no pins.
    let st = parse_state(&"active_profile = \"dev\"\n".to_string()).unwrap();
    assert_eq!(st.active_profile, Some("dev".to_string()));
    assert_eq!(st.pinned_versions.len(), 0);

    // Blank lines between pins, and no profile.
    let st = parse_state(&"[pinned_versions]\n\na_b = \"x\"\n\n".to_string()).unwrap();
    assert!(st.active_profile.is_none());
    assert_eq!(st.pinned_versions.get(&"a_b".to_string()), Some(&"x".to_string()));
}

#[test]
fn malformed_state_file_is_an_error() {
    assert!(parse_state(&"not a state file".to_string()).is_err());
    assert!(parse_state(&"active_profile = unquoted\n[pinned_versions]\n".to_string()).is_err());
}
