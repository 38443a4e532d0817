use stowaway::config::StowawayConfig;
use stowaway::context::{OperationMode, StowawayContext};
use stowaway::engine::ExecutionFlags;
use stowaway::file_entry::FileEntry;
use stowaway::lifecycle::interpolate::{InterpolateObservation, InterpolatePhase};
use stowaway::lifecycle::LifecyclePhase;
use stowaway::store::{StoreLocation, calculate_content_hash};
use stowaway::StowawayError;

fn create_test_context(files: Vec<(&str, &str, bool)>) -> StowawayContext {
    let mut config = StowawayConfig::default();
    config.variables.insert("username".to_string(), "testuser".to_string());
    config.variables.insert("editor".to_string(), "vim".to_string());
    let mut context = StowawayContext::default(
        config,
        "/tmp/i/source".to_string(),
        "/tmp/i/target".to_string(),
        ExecutionFlags { is_dry_run: false },
    );
    let mut all_content = String::new();
    for (rel, content, should_interpolate) in files {
        all_content.push_str(content);
        context.files.push(FileEntry {
            source_path: format!("/tmp/i/source/{}", rel),
            relative_path: rel.to_string(),
            target_path: format!("/tmp/i/target/{}", rel),
            should_interpolate,
        });
    }
    context.target_hash = Some(calculate_content_hash(&all_content));
    context
}

fn observation() -> InterpolateObservation {
    InterpolateObservation { store: StoreLocation { home_dir: Some("/home/test".to_string()), store_dir: None }, now: 1700000000 }
}

#[test]
fn test_interpolates_all_vars_in_file() {
    let mut context = create_test_context(vec![("config.txt", "User: @username@\nEditor: @editor@", true)]);
    let plan = InterpolatePhase.execute(&mut context, observation()).unwrap().unwrap();
    assert!(context.store_hash.is_some());
    assert_eq!(plan.files[0].store_path, format!("{}/config.txt", plan.store_path));
    assert!(plan.files[0].interpolate);
    let rendered = InterpolatePhase.render(&context, "User: @username@\nEditor: @editor@").unwrap();
    assert_eq!(rendered, "User: testuser\nEditor: vim");
}

#[test]
fn test_handles_missing_var_mappings() {
    let mut context = create_test_context(vec![("config.txt", "User: @username@\nMissing: @nonexistent@", true)]);
    InterpolatePhase.execute(&mut context, observation()).unwrap();
    assert!(context.store_hash.is_some());
    let rendered = InterpolatePhase.render(&context, "User: @username@\nMissing: @nonexistent@").unwrap();
    assert_eq!(rendered, "User: testuser\nMissing: @nonexistent@");
}

#[test]
fn test_copies_non_interpolated_files() {
    let original_content = "This should not be interpolated: @username@";
    let mut context = create_test_context(vec![("binary.dat", original_content, false)]);
    let plan = InterpolatePhase.execute(&mut context, observation()).unwrap().unwrap();
    assert!(context.store_hash.is_some());
    assert!(!plan.files[0].interpolate);
    assert_eq!(plan.files[0].source_path, "/tmp/i/source/binary.dat");
}

#[test]
fn test_mixed_interpolated_and_non_interpolated_files() {
    let mut context = create_test_context(vec![
        ("config.txt", "User: @username@", true),
        ("binary.dat", "Raw data: @username@", false),
        ("template.conf", "Editor: @editor@\nUser: @username@", true),
    ]);
    let plan = InterpolatePhase.execute(&mut context, observation()).unwrap().unwrap();
    let flags: Vec<bool> = plan.files.iter().map(|f| f.interpolate).collect();
    assert_eq!(flags, vec![true, false, true]);
    assert_eq!(InterpolatePhase.render(&context, "User: @username@").unwrap(), "User: testuser");
    assert_eq!(
        InterpolatePhase.render(&context, "Editor: @editor@\nUser: @username@").unwrap(),
        "Editor: vim\nUser: testuser"
    );
}

#[test]
fn test_creates_nested_directory_structure() {
    let mut context = create_test_context(vec![
        ("deep/nested/config.txt", "User: @username@", true),
        ("another/path/file.dat", "Raw: @editor@", false),
    ]);
    let plan = InterpolatePhase.execute(&mut context, observation()).unwrap().unwrap();
    assert_eq!(plan.files[0].store_path, format!("{}/deep/nested/config.txt", plan.store_path));
    assert_eq!(plan.files[1].store_path, format!("{}/another/path/file.dat", plan.store_path));
}

#[test]
fn test_content_hash_consistency() {
    let mut context1 = create_test_context(vec![("config.txt", "User: @username@", true)]);
    InterpolatePhase.execute(&mut context1, observation()).unwrap();
    let hash1 = context1.store_hash.clone();

    let mut context2 = create_test_context(vec![("config.txt", "User: @username@", true)]);
    InterpolatePhase.execute(&mut context2, observation()).unwrap();
    let hash2 = context2.store_hash.clone();

    assert_eq!(hash1, hash2);
}

#[test]
fn interpolate_test_different_content_different_hash() {
    let mut context1 = create_test_context(vec![("config.txt", "User: @username@", true)]);
    InterpolatePhase.execute(&mut context1, observation()).unwrap();
    let hash1 = context1.store_hash.clone();

    let mut context2 = create_test_context(vec![("config.txt", "Editor: @editor@", true)]);
    InterpolatePhase.execute(&mut context2, observation()).unwrap();
    let hash2 = context2.store_hash.clone();

    assert_ne!(hash1, hash2);
}

#[test]
fn plan_names_the_version_directory() {
    let mut context = create_test_context(vec![("a", "x", true)]);
    context.target_hash = Some("abc".to_string());
    let plan = InterpolatePhase.execute(&mut context, observation()).unwrap().unwrap();
    assert_eq!(plan.store_path, "/home/test/.stowaway/store/abc");
    assert_eq!(plan.version.hash, "abc");
    assert_eq!(plan.version.timestamp, 1700000000);
    assert_eq!(plan.version.target_dir, "/tmp/i/target");
    assert_eq!(context.store_hash, Some("abc".to_string()));
}

#[test]
fn verify_mode_writes_nothing() {
    let mut context = create_test_context(vec![("a", "x", true)]);
    context.operation_mode = OperationMode::Verify;
    assert!(InterpolatePhase.execute(&mut context, observation()).unwrap().is_none());
    assert!(context.store_hash.is_none());
}

#[test]
fn missing_target_hash_is_a_store_error() {
    let mut context = create_test_context(vec![("a", "x", true)]);
    context.target_hash = None;
    match InterpolatePhase.execute(&mut context, observation()) {
        Err(StowawayError::Store(m)) => assert_eq!(m, "No target hash available"),
        _ => panic!("expected a store error"),
    }
}

#[test]
fn dry_run_plans_no_store_version() {
    let mut context = create_test_context(vec![("config.txt", "User: @username@", true)]);
    context.dry_run = true;
    let before_target_hash = context.target_hash.clone();
    let plan = InterpolatePhase.execute(&mut context, observation()).unwrap();
    assert!(plan.is_none());
    assert_eq!(context.store_hash, before_target_hash);
    assert_eq!(context.target_hash, before_target_hash);
}

#[test]
fn dry_run_without_target_hash_is_a_store_error() {
    let mut context = create_test_context(vec![("config.txt", "User: @username@", true)]);
    context.dry_run = true;
    context.target_hash = None;
    match InterpolatePhase.execute(&mut context, observation()) {
        Err(StowawayError::Store(m)) => assert_eq!(m, "No target hash available"),
        _ => panic!("expected a store error"),
    }
    assert!(context.store_hash.is_none());
}
