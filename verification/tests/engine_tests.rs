use stowaway::cli::{parse_args, CliCommand, ParsedArgs};
use stowaway::config::ConfigFile;
use stowaway::engine::{
    EngineStep, ExecutionFlags, PhaseKind, StoreEntry, StowawayEngine, UnstowObservation,
};
use stowaway::store::{StoreLocation, SessionFile, StoreVersion};
use stowaway::{Stowaway, StowawayError};

#[test]
fn engine_runs_phases_in_order_then_finishes() {
    let engine = StowawayEngine::new();
    let expected = [
        PhaseKind::Context,
        PhaseKind::Scan,
        PhaseKind::Validate,
        PhaseKind::Interpolate,
        PhaseKind::Link,
        PhaseKind::Cleanup,
    ];
    for (i, kind) in expected.iter().enumerate() {
        match engine.execute(i, Ok(())) {
            EngineStep::Run(k) => assert_eq!(k, *kind),
            EngineStep::Finished(_) => panic!("finished early"),
        }
    }
    assert!(matches!(engine.execute(6, Ok(())), EngineStep::Finished(Ok(()))));
}

#[test]
fn engine_stops_at_first_failure() {
    let engine = StowawayEngine::new();
    match engine.execute(3, Err(StowawayError::Conflict("Found 1 conflicts:\nx: FileExists".to_string()))) {
        EngineStep::Finished(Err(e)) => assert!(e.message().contains("conflicts")),
        _ => panic!("expected the failure"),
    }
}

#[test]
fn start_builds_a_fresh_context() {
    let engine = StowawayEngine::new();
    assert_eq!(engine.config_path("/src"), "/src/stowaway.yaml");
    let ctx = engine.start("/src", "/dst", ExecutionFlags { is_dry_run: true }, ConfigFile::Missing).unwrap();
    assert_eq!(ctx.source_dir, "/src");
    assert_eq!(ctx.target_dir, "/dst");
    assert!(ctx.dry_run);
    assert!(ctx.files.is_empty());
    assert!(engine.start("/src", "/dst", ExecutionFlags { is_dry_run: false }, ConfigFile::Malformed("x".to_string())).is_err());
}

fn version() -> StoreVersion {
    StoreVersion { hash: "h1".to_string(), timestamp: 5, source_dir: "/src".to_string(), target_dir: "/dst".to_string() }
}

#[test]
fn unstow_without_current_version_fails() {
    let stowaway = Stowaway::new();
    match stowaway.unstow(StoreLocation { home_dir: Some("/home/u".to_string()), store_dir: None }, SessionFile::Missing) {
        Err(StowawayError::Store(m)) => assert_eq!(m, "No current version exists - nothing to unstow"),
        _ => panic!("expected a store error"),
    }
}

#[test]
fn unstow_removes_links_of_store_files() {
    let stowaway = Stowaway::new();
    let scope = stowaway.unstow(StoreLocation { home_dir: Some("/home/u".to_string()), store_dir: None }, SessionFile::Parsed(version())).unwrap();
    assert_eq!(scope.store_path, "/home/u/.stowaway/store/h1");
    assert_eq!(scope.session_file, "/home/u/.stowaway/session.json");
    let observed = UnstowObservation {
        store_exists: true,
        entries: vec![
            StoreEntry { relative_path: "a.txt".to_string(), target_is_symlink: true },
            StoreEntry { relative_path: "b.txt".to_string(), target_is_symlink: false },
            StoreEntry { relative_path: "c/d.txt".to_string(), target_is_symlink: true },
        ],
        walk_error: None,
    };
    let plan = stowaway.engine().unstow_plan(&scope, &observed, false).unwrap();
    assert_eq!(plan.removals, vec!["/dst/a.txt".to_string(), "/dst/c/d.txt".to_string()]);
    assert_eq!(plan.clear_session, Some("/home/u/.stowaway/session.json".to_string()));

    let dry = stowaway.engine().unstow_plan(&scope, &observed, true).unwrap();
    assert!(dry.removals.is_empty());
    assert_eq!(dry.would_remove, 2);
    assert!(dry.clear_session.is_none());
}

#[test]
fn unstow_of_missing_store_fails() {
    let stowaway = Stowaway::new();
    let scope = stowaway.unstow(StoreLocation { home_dir: Some("/home/u".to_string()), store_dir: None }, SessionFile::Parsed(version())).unwrap();
    let observed = UnstowObservation { store_exists: false, entries: vec![], walk_error: None };
    match stowaway.engine().unstow_plan(&scope, &observed, false) {
        Err(StowawayError::Store(m)) => assert_eq!(m, "Store version h1 does not exist"),
        _ => panic!("expected a store error"),
    }
}

#[test]
fn stowaway_run_delegates_to_engine() {
    let stowaway = Stowaway::new();
    assert!(matches!(stowaway.run(0, Ok(())), EngineStep::Run(PhaseKind::Context)));
    assert!(matches!(stowaway.run(5, Ok(())), EngineStep::Run(PhaseKind::Cleanup)));
}

fn args(sub: &str) -> ParsedArgs {
    ParsedArgs {
        subcommand: sub.to_string(),
        source: Some("/home/user/dotfiles".to_string()),
        target: Some("/home/user".to_string()),
        dry_run: true,
        log_level: None,
        log_format: Some("human".to_string()),
        verbose: false,
        quiet: false,
    }
}

#[test]
fn parse_args_builds_commands() {
    match parse_args(args("stow")) {
        CliCommand::Stow { source, target, dry_run, log_format, .. } => {
            assert_eq!(source, "/home/user/dotfiles");
            assert_eq!(target, "/home/user");
            assert!(dry_run);
            assert_eq!(log_format, Some("human".to_string()));
        }
        _ => panic!("Expected Stow command"),
    }
    match parse_args(args("unstow")) {
        CliCommand::Unstow { dry_run, .. } => assert!(dry_run),
        _ => panic!("Expected Unstow command"),
    }
}
