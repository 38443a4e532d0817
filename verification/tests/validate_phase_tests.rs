use stowaway::config::StowawayConfig;
use stowaway::context::StowawayContext;
use stowaway::engine::ExecutionFlags;
use stowaway::file_entry::FileEntry;
use stowaway::lifecycle::validate::ValidatePhase;
use stowaway::lifecycle::LifecyclePhase;
use stowaway::validation::PathState;

fn create_test_context() -> StowawayContext {
    let mut config = StowawayConfig::default();
    config.interpolation.include_patterns = vec![];
    config.interpolation.exclude_patterns = vec![];
    StowawayContext::default(config, "/tmp/v/source".to_string(), "/tmp/v/target".to_string(), ExecutionFlags { is_dry_run: false })
}

fn entry(context: &StowawayContext, rel: &str) -> FileEntry {
    FileEntry {
        source_path: format!("{}/{}", context.source_dir, rel),
        relative_path: rel.to_string(),
        target_path: format!("{}/{}", context.target_dir, rel),
        should_interpolate: true,
    }
}

fn nothing() -> PathState {
    PathState { is_symlink: false, exists: false, is_dir: false, is_file: false, link: None }
}

fn file() -> PathState {
    PathState { is_symlink: false, exists: true, is_dir: false, is_file: true, link: None }
}

fn directory() -> PathState {
    PathState { is_symlink: false, exists: true, is_dir: true, is_file: false, link: None }
}

fn link_to(target: &str, exists: bool) -> PathState {
    PathState { is_symlink: true, exists, is_dir: false, is_file: exists, link: Some(Ok(target.to_string())) }
}

#[test]
fn test_passes_with_no_conflicts() {
    let mut context = create_test_context();
    let e = entry(&context, "config.txt");
    context.files.push(e);
    let result = ValidatePhase.execute(&mut context, vec![nothing()]);
    assert!(result.is_ok());
}

#[test]
fn test_detects_file_conflicts() {
    let mut context = create_test_context();
    let e = entry(&context, "config.txt");
    context.files.push(e);
    let result = ValidatePhase.execute(&mut context, vec![file()]);
    assert!(result.is_err());
    let error_msg = result.unwrap_err().message();
    assert!(error_msg.contains("Found 1 conflicts"));
    assert!(error_msg.contains("FileExists"));
}

#[test]
fn test_detects_directory_conflicts() {
    let mut context = create_test_context();
    let e = entry(&context, "config");
    context.files.push(e);
    let result = ValidatePhase.execute(&mut context, vec![directory()]);
    assert!(result.is_err());
    let error_msg = result.unwrap_err().message();
    assert!(error_msg.contains("Found 1 conflicts"));
    assert!(error_msg.contains("DirectoryExists"));
}

#[test]
fn test_allows_managed_symlinks() {
    let mut context = create_test_context();
    let e = entry(&context, "config.txt");
    context.files.push(e);
    let state = link_to("/tmp/v/.stowaway/store/abc123/config.txt", true);
    assert!(ValidatePhase.execute(&mut context, vec![state]).is_ok());
}

#[test]
fn test_detects_unmanaged_symlinks() {
    let mut context = create_test_context();
    let e = entry(&context, "config.txt");
    context.files.push(e);
    let result = ValidatePhase.execute(&mut context, vec![link_to("/tmp/v/external.txt", true)]);
    let error_msg = result.unwrap_err().message();
    assert!(error_msg.contains("Found 1 conflicts"));
    assert!(error_msg.contains("SymlinkExists"));
}

#[test]
fn test_handles_multiple_conflicts() {
    let mut context = create_test_context();
    for rel in ["config.txt", "scripts", "link.txt"] {
        let e = entry(&context, rel);
        context.files.push(e);
    }
    let result = ValidatePhase.execute(
        &mut context,
        vec![file(), directory(), link_to("/tmp/v/external.txt", true)],
    );
    let error_msg = result.unwrap_err().message();
    assert!(error_msg.contains("Found 3 conflicts"));
    assert!(error_msg.contains("FileExists"));
    assert!(error_msg.contains("DirectoryExists"));
    assert!(error_msg.contains("SymlinkExists"));
}

#[test]
fn test_mixed_valid_and_invalid_files() {
    let mut context = create_test_context();
    for rel in ["valid.txt", "managed.txt", "conflict.txt"] {
        let e = entry(&context, rel);
        context.files.push(e);
    }
    let result = ValidatePhase.execute(
        &mut context,
        vec![nothing(), link_to("/tmp/v/.stowaway/store/abc123/managed.txt", true), file()],
    );
    let error_msg = result.unwrap_err().message();
    assert!(error_msg.contains("Found 1 conflicts"));
    assert!(error_msg.contains("FileExists"));
    assert!(!error_msg.contains("managed.txt"));
}

#[test]
fn test_empty_file_list() {
    let mut context = create_test_context();
    assert!(ValidatePhase.execute(&mut context, vec![]).is_ok());
}

#[test]
fn test_nested_directory_structure() {
    let mut context = create_test_context();
    let e = entry(&context, "config/app/settings.toml");
    context.files.push(e);
    assert!(ValidatePhase.execute(&mut context, vec![nothing()]).is_ok());
}

#[test]
fn test_broken_symlink_detection() {
    let mut context = create_test_context();
    let e = entry(&context, "broken.txt");
    context.files.push(e);
    let result = ValidatePhase.execute(&mut context, vec![link_to("/tmp/v/nonexistent.txt", false)]);
    let error_msg = result.unwrap_err().message();
    assert!(error_msg.contains("Found 1 conflicts"));
    assert!(error_msg.contains("SymlinkExists"));
}

#[test]
fn conflict_message_lists_each_blocked_target() {
    let mut context = create_test_context();
    for rel in ["a", "b", "c"] {
        let e = entry(&context, rel);
        context.files.push(e);
    }
    let err = ValidatePhase.execute(&mut context, vec![file(), nothing(), directory()]).unwrap_err();
    assert_eq!(
        err.message(),
        "Conflict detected: Found 2 conflicts:\n/tmp/v/target/a: FileExists\n/tmp/v/target/c: DirectoryExists"
    );
}
