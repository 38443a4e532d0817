use stowaway::linking::{FileSystemLinker, Linker};
use stowaway::validation::{ConflictType, FileSystemValidator, PathState, ValidationResult, Validator};
use stowaway::StowawayError;

fn nothing() -> PathState {
    PathState { is_symlink: false, exists: false, is_dir: false, is_file: false, link: None }
}

fn file() -> PathState {
    PathState { is_symlink: false, exists: true, is_dir: false, is_file: true, link: None }
}

fn directory() -> PathState {
    PathState { is_symlink: false, exists: true, is_dir: true, is_file: false, link: None }
}

fn link_to(target: &str, exists: bool) -> PathState {
    PathState { is_symlink: true, exists, is_dir: false, is_file: exists, link: Some(Ok(target.to_string())) }
}

#[test]
fn test_validate_nonexistent_path() {
    let validator = FileSystemValidator;
    let test_path = "/tmp/x/nonexistent";

    let result = validator.validate_path(test_path, &nothing()).unwrap();

    assert_eq!(result.conflict_type, ConflictType::NoConflict);
    assert!(!result.is_managed);
    assert_eq!(result.path, test_path);
}

#[test]
fn test_validate_existing_file() {
    let validator = FileSystemValidator;
    let result = validator.validate_path("/tmp/x/test.txt", &file()).unwrap();
    assert_eq!(result.conflict_type, ConflictType::FileExists);
    assert!(!result.is_managed);
}

#[test]
fn test_validate_existing_directory() {
    let validator = FileSystemValidator;
    let result = validator.validate_path("/tmp/x/testdir", &directory()).unwrap();
    assert_eq!(result.conflict_type, ConflictType::DirectoryExists);
    assert!(!result.is_managed);
}

#[test]
fn test_is_managed_by_stowaway_false_for_file() {
    let validator = FileSystemValidator;
    let result = validator.is_managed_by_stowaway("/tmp/x/test.txt", &file()).unwrap();
    assert!(!result);
}

#[test]
fn test_validation_result_creation() {
    let path = "/test/path".to_string();
    let result = ValidationResult {
        path: path.clone(),
        conflict_type: ConflictType::FileExists,
        is_managed: true,
    };

    assert_eq!(result.path, path);
    assert_eq!(result.conflict_type, ConflictType::FileExists);
    assert!(result.is_managed);
}

#[test]
fn links_into_a_store_are_managed() {
    let validator = FileSystemValidator;
    let managed = link_to("/home/u/.stowaway/store/abc123/config.txt", true);
    let r = validator.validate_path("/t/config.txt", &managed).unwrap();
    assert_eq!(r.conflict_type, ConflictType::SymlinkExists);
    assert!(r.is_managed);

    let external = link_to("/tmp/external.txt", true);
    let r = validator.validate_path("/t/config.txt", &external).unwrap();
    assert_eq!(r.conflict_type, ConflictType::SymlinkExists);
    assert!(!r.is_managed);
}

#[test]
fn broken_link_is_a_link_conflict() {
    let validator = FileSystemValidator;
    let broken = link_to("/tmp/nonexistent.txt", false);
    let r = validator.validate_path("/t/broken.txt", &broken).unwrap();
    assert_eq!(r.conflict_type, ConflictType::SymlinkExists);
    let unreadable = PathState { link: Some(Err("denied".to_string())), ..link_to("x", false) };
    assert!(!validator.is_managed_by_stowaway("/t/x", &unreadable).unwrap());
}

#[test]
fn linker_refuses_occupied_targets() {
    let linker = FileSystemLinker;
    assert!(linker.create_symlink("/s", "/t/a", false).is_ok());
    match linker.create_symlink("/s", "/t/a", true) {
        Err(StowawayError::Linking(m)) => assert_eq!(m, "Target already exists: /t/a"),
        _ => panic!("expected a linking error"),
    }
    assert!(linker.remove_symlink("/t/a", true).is_ok());
    match linker.remove_symlink("/t/a", false) {
        Err(e) => assert_eq!(e.message(), "Linking error: Target is not a symlink: /t/a"),
        Ok(_) => panic!("expected a linking error"),
    }
}

#[test]
fn linker_checks_link_targets() {
    let linker = FileSystemLinker;
    assert!(linker.is_symlink_valid("/t/a", "/s/a", &link_to("/s/a", true)).unwrap());
    assert!(!linker.is_symlink_valid("/t/a", "/s/wrong", &link_to("/s/a", true)).unwrap());
    assert!(!linker.is_symlink_valid("/t/a", "/s/a", &file()).unwrap());
    assert!(linker.is_symlink_valid("/t/a", "/s//./a/", &link_to("/s/a", true)).unwrap());
    assert!(!linker.is_symlink_valid("/t/a", "./s/a", &link_to("s/a", true)).unwrap());
    assert!(linker.is_symlink_valid("/t/a", "s/a", &link_to("s//a", true)).unwrap());
}
