use stowaway::config::{
    ConfigFile, ConfigLoader, InterpolationConfig, StowawayConfig, VariableMap, YamlConfigLoader,
    STOWAWAY_CONFIG,
};
use stowaway::StowawayError;

#[test]
fn test_default_config() {
    let config = StowawayConfig::default();
    assert!(config.variables.is_empty());
    assert_eq!(config.interpolation.include_patterns, vec!["**/*"]);
    assert_eq!(
        config.interpolation.exclude_patterns,
        vec![format!("**/{}", STOWAWAY_CONFIG)]
    );
}

#[test]
fn test_load_missing_config() {
    let loader = YamlConfigLoader;
    let config = loader.load_config(ConfigFile::Missing).unwrap();
    assert!(config.variables.is_empty());
}

#[test]
fn load_parsed_config_is_kept() {
    let loader = YamlConfigLoader;
    let mut variables = VariableMap::new();
    variables.insert("username".to_string(), "testuser".to_string());
    variables.insert("editor".to_string(), "vim".to_string());
    let config = StowawayConfig {
        variables,
        interpolation: InterpolationConfig {
            include_patterns: vec!["**/*.conf".to_string(), "**/*.toml".to_string()],
            exclude_patterns: vec!["**/*.bin".to_string()],
        },
    };
    let config = loader.load_config(ConfigFile::Parsed(config)).unwrap();
    assert_eq!(config.variables.get("username"), Some(&"testuser".to_string()));
    assert_eq!(config.variables.get("editor"), Some(&"vim".to_string()));
    assert_eq!(config.interpolation.include_patterns, vec!["**/*.conf", "**/*.toml"]);
    assert_eq!(config.interpolation.exclude_patterns, vec!["**/*.bin"]);
}

#[test]
fn load_unreadable_config_is_io_error() {
    let loader = YamlConfigLoader;
    match loader.load_config(ConfigFile::Unreadable("permission denied".to_string())) {
        Err(StowawayError::Io(m)) => assert_eq!(m, "permission denied"),
        _ => panic!("expected an I/O error"),
    }
}

#[test]
fn load_malformed_config_is_yaml_error() {
    let loader = YamlConfigLoader;
    let err = loader.load_config(ConfigFile::Malformed("bad indentation".to_string()));
    match err {
        Err(e) => assert_eq!(e.message(), "YAML parsing error: bad indentation"),
        Ok(_) => panic!("expected a YAML error"),
    }
}

#[test]
fn config_path_is_at_source_root() {
    let loader = YamlConfigLoader;
    assert_eq!(loader.config_path("/home/user/dotfiles"), "/home/user/dotfiles/stowaway.yaml");
    assert_eq!(loader.config_path("/home/user/dotfiles/"), "/home/user/dotfiles/stowaway.yaml");
}

#[test]
fn variable_map_insert_and_get() {
    let mut vars = VariableMap::new();
    assert!(vars.is_empty());
    vars.insert("a".to_string(), "1".to_string());
    vars.insert("b".to_string(), "2".to_string());
    vars.insert("a".to_string(), "3".to_string());
    assert_eq!(vars.len(), 2);
    assert_eq!(vars.get("a"), Some(&"3".to_string()));
    assert_eq!(vars.get("b"), Some(&"2".to_string()));
    assert_eq!(vars.get("c"), None);
    assert_eq!(vars.entries()[0].0, "a");
}
