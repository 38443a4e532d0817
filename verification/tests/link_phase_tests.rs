use stowaway::store::StoreLocation;
use stowaway::config::StowawayConfig;
use stowaway::context::{OperationMode, StowawayContext};
use stowaway::engine::ExecutionFlags;
use stowaway::file_entry::FileEntry;
use stowaway::lifecycle::link::{LinkObservation, LinkPhase, LinkTarget};
use stowaway::lifecycle::LifecyclePhase;
use stowaway::validation::PathState;
use stowaway::StowawayError;

const HOME: &str = "/home/test";

fn create_test_context(files: Vec<&str>, dry_run: bool) -> StowawayContext {
    let mut context = StowawayContext::default(
        StowawayConfig::default(),
        "/tmp/l/source".to_string(),
        "/tmp/l/target".to_string(),
        ExecutionFlags { is_dry_run: dry_run },
    );
    for rel in files {
        context.files.push(FileEntry {
            source_path: format!("/tmp/l/source/{}", rel),
            relative_path: rel.to_string(),
            target_path: format!("/tmp/l/target/{}", rel),
            should_interpolate: false,
        });
    }
    context.store_hash = Some("test_hash_123".to_string());
    context.operation_mode = OperationMode::Create;
    context
}

fn nothing() -> PathState {
    PathState { is_symlink: false, exists: false, is_dir: false, is_file: false, link: None }
}

fn file() -> PathState {
    PathState { is_symlink: false, exists: true, is_dir: false, is_file: true, link: None }
}

fn link_to(target: &str) -> PathState {
    PathState { is_symlink: true, exists: true, is_dir: false, is_file: true, link: Some(Ok(target.to_string())) }
}

fn free(store_file_exists: bool) -> LinkTarget {
    LinkTarget { state: nothing(), store_file_exists }
}

fn observe(targets: Vec<LinkTarget>) -> LinkObservation {
    LinkObservation { store: StoreLocation { home_dir: Some(HOME.to_string()), store_dir: None }, now: 42, targets }
}

fn store_file(hash: &str, rel: &str) -> String {
    format!("{}/.stowaway/store/{}/{}", HOME, hash, rel)
}

#[test]
fn test_dry_run_vs_regular() {
    let mut dry_context = create_test_context(vec!["config.txt"], true);
    let plan = LinkPhase.execute(&mut dry_context, observe(vec![free(true)])).unwrap();
    assert!(plan.links.is_empty() && plan.session.is_none());

    let mut regular_context = create_test_context(vec!["config.txt"], false);
    let plan = LinkPhase.execute(&mut regular_context, observe(vec![free(true)])).unwrap();
    assert_eq!(
        plan.links,
        vec![(store_file("test_hash_123", "config.txt"), "/tmp/l/target/config.txt".to_string())]
    );
    assert!(plan.failure.is_none());
}

#[test]
fn test_symlinks_files() {
    let mut context = create_test_context(vec!["config.txt", "nested/file.conf"], false);
    context.store_hash = Some("test_hash_456".to_string());
    let plan = LinkPhase.execute(&mut context, observe(vec![free(true), free(true)])).unwrap();
    assert_eq!(plan.links[0].0, store_file("test_hash_456", "config.txt"));
    assert_eq!(plan.links[1].0, store_file("test_hash_456", "nested/file.conf"));
    assert_eq!(plan.links[1].1, "/tmp/l/target/nested/file.conf");
    let session = plan.session.unwrap();
    assert_eq!(session.hash, "test_hash_456");
    assert_eq!(session.timestamp, 42);
}

#[test]
fn test_handles_missing_store_hash() {
    let mut context = create_test_context(vec!["config.txt"], false);
    context.store_hash = None;
    let result = LinkPhase.execute(&mut context, observe(vec![free(true)]));
    assert!(result.is_err());
    match result.err().unwrap() {
        StowawayError::Store(msg) => {
            assert_eq!(msg, "No store hash available");
        }
        _ => panic!("Expected Store error"),
    }
}

#[test]
fn test_handles_missing_store_files() {
    let mut context = create_test_context(vec!["config.txt"], false);
    context.store_hash = Some("nonexistent_hash".to_string());
    let plan = LinkPhase.execute(&mut context, observe(vec![free(false)])).unwrap();
    match plan.failure {
        Some(StowawayError::Store(m)) => {
            assert_eq!(m, format!("Store file does not exist: {}", store_file("nonexistent_hash", "config.txt")))
        }
        _ => panic!("expected a store error"),
    }
    assert!(plan.links.is_empty() && plan.session.is_none());
}

#[test]
fn test_handles_symlink_creation_failure() {
    let mut context = create_test_context(vec!["config.txt"], false);
    let plan = LinkPhase
        .execute(&mut context, observe(vec![LinkTarget { state: file(), store_file_exists: true }]))
        .unwrap();
    assert!(plan.failure.is_some());
}

#[test]
fn test_creates_target_directories() {
    let mut context = create_test_context(vec!["deep/nested/config.txt"], false);
    context.store_hash = Some("test_hash_nested".to_string());
    let plan = LinkPhase.execute(&mut context, observe(vec![free(true)])).unwrap();
    assert_eq!(plan.links[0].1, "/tmp/l/target/deep/nested/config.txt");
}

#[test]
fn test_multiple_files_partial_failure() {
    let mut context = create_test_context(vec!["good.txt", "bad.txt"], false);
    context.store_hash = Some("test_hash_partial".to_string());
    let plan = LinkPhase
        .execute(&mut context, observe(vec![free(true), LinkTarget { state: file(), store_file_exists: true }]))
        .unwrap();
    assert!(plan.failure.is_some());
    assert_eq!(plan.links.len(), 1);
    assert_eq!(plan.links[0].1, "/tmp/l/target/good.txt");
    assert!(plan.session.is_none());
}

#[test]
fn test_dry_run_with_missing_store_hash() {
    let mut context = create_test_context(vec!["config.txt"], true);
    context.store_hash = None;
    assert!(LinkPhase.execute(&mut context, observe(vec![free(true)])).is_ok());
}

#[test]
fn test_empty_files_list() {
    let mut context = create_test_context(vec![], false);
    let plan = LinkPhase.execute(&mut context, observe(vec![])).unwrap();
    assert!(plan.failure.is_none());
    assert!(plan.session.is_some());
}

#[test]
fn test_symlink_points_to_correct_store_location() {
    let mut context = create_test_context(vec!["verify.txt"], false);
    context.store_hash = Some("test_hash_verify".to_string());
    let plan = LinkPhase.execute(&mut context, observe(vec![free(true)])).unwrap();
    assert_eq!(plan.links[0].0, store_file("test_hash_verify", "verify.txt"));
}

#[test]
fn verify_mode_accepts_links_into_the_store() {
    let mut context = create_test_context(vec!["a.txt"], false);
    context.operation_mode = OperationMode::Verify;
    let good = LinkTarget { state: link_to(&store_file("test_hash_123", "a.txt")), store_file_exists: true };
    let plan = LinkPhase.execute(&mut context, observe(vec![good])).unwrap();
    assert!(plan.links.is_empty() && plan.removals.is_empty() && plan.session.is_none());
}

#[test]
fn verify_mode_compares_link_targets_as_paths() {
    let mut context = create_test_context(vec!["a.txt"], false);
    context.operation_mode = OperationMode::Verify;
    let same = format!("{}/.stowaway//store/./test_hash_123/a.txt/", HOME);
    let good = LinkTarget { state: link_to(&same), store_file_exists: true };
    assert!(LinkPhase.execute(&mut context, observe(vec![good])).is_ok());
    let relative = LinkTarget { state: link_to("home/test/.stowaway/store/test_hash_123/a.txt"), store_file_exists: true };
    assert!(LinkPhase.execute(&mut context, observe(vec![relative])).is_err());
}

#[test]
fn verify_mode_rejects_missing_and_wrong_links() {
    let mut context = create_test_context(vec!["a.txt"], false);
    context.operation_mode = OperationMode::Verify;
    match LinkPhase.execute(&mut context, observe(vec![free(true)])) {
        Err(StowawayError::Linking(m)) => assert_eq!(m, "Expected symlink not found: /tmp/l/target/a.txt"),
        _ => panic!("expected a linking error"),
    }
    let wrong = LinkTarget { state: link_to("/elsewhere"), store_file_exists: true };
    match LinkPhase.execute(&mut context, observe(vec![wrong])) {
        Err(StowawayError::Linking(m)) => assert_eq!(
            m,
            format!(
                "Symlink points to wrong location: /tmp/l/target/a.txt -> /elsewhere (expected: {})",
                store_file("test_hash_123", "a.txt")
            )
        ),
        _ => panic!("expected a linking error"),
    }
}

#[test]
fn replace_mode_removes_existing_targets_first() {
    let mut context = create_test_context(vec!["a", "b", "c"], false);
    context.operation_mode = OperationMode::Replace;
    let broken = PathState { is_symlink: true, exists: false, is_dir: false, is_file: false, link: Some(Ok("/gone".to_string())) };
    let targets = vec![
        LinkTarget { state: link_to("/old/a"), store_file_exists: true },
        free(true),
        LinkTarget { state: broken, store_file_exists: true },
    ];
    let plan = LinkPhase.execute(&mut context, observe(targets)).unwrap();
    assert_eq!(plan.removals, vec!["/tmp/l/target/a".to_string()]);
    assert_eq!(plan.links.len(), 2);
    match plan.failure {
        Some(StowawayError::Linking(m)) => assert_eq!(m, "Target already exists: /tmp/l/target/c"),
        _ => panic!("expected a linking error"),
    }
}
