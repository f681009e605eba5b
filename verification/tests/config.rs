use chronos::config::{AppConfig, ConfigManager, DatabaseMetadata};
use chronos::errors::ConfigError;

fn metadata(name: &str, path: &str) -> DatabaseMetadata {
    DatabaseMetadata {
        name: name.to_string(),
        path: path.to_string(),
        created_at: "2025-01-01T00:00:00".to_string(),
        last_accessed: None,
        is_active: false,
    }
}

#[test]
fn config_path_lives_under_the_config_directory() {
    let path = ConfigManager::get_config_path("/home/someone/.config/Chronos");
    assert_eq!(path, "/home/someone/.config/Chronos/config.json");
}

#[test]
fn first_database_added_becomes_active() {
    let mut config = AppConfig::default();
    ConfigManager::add_database(&mut config, "alpha", "/data/alpha.db", "t0")
        .expect("fresh name");
    assert_eq!(config.active_db.as_deref(), Some("alpha"));

    ConfigManager::add_database(&mut config, "beta", "/data/beta.db", "t1")
        .expect("fresh name");
    assert_eq!(config.active_db.as_deref(), Some("alpha"));

    let duplicate = ConfigManager::add_database(&mut config, "alpha", "/elsewhere.db", "t2");
    assert_eq!(duplicate.unwrap_err(), ConfigError::DatabaseExists);
}

#[test]
fn activation_requires_a_registered_name() {
    let mut config = AppConfig::default();
    ConfigManager::add_database(&mut config, "alpha", "/data/alpha.db", "t0").expect("fresh");
    ConfigManager::add_database(&mut config, "beta", "/data/beta.db", "t1").expect("fresh");

    ConfigManager::set_active_db(&mut config, "beta", "t2").expect("registered");
    assert_eq!(config.active_db.as_deref(), Some("beta"));

    let active = ConfigManager::get_active_db(&config).expect("resolves");
    assert_eq!(active.name, "beta");
    assert_eq!(active.last_accessed.as_deref(), Some("t2"));

    let missing = ConfigManager::set_active_db(&mut config, "gamma", "t3");
    assert_eq!(missing.unwrap_err(), ConfigError::DatabaseNotFound);
}

#[test]
fn removal_hands_back_the_entry_and_reassigns_active() {
    let mut config = AppConfig::default();
    ConfigManager::add_database(&mut config, "alpha", "/data/alpha.db", "t0").expect("fresh");
    ConfigManager::add_database(&mut config, "beta", "/data/beta.db", "t1").expect("fresh");

    let removed = ConfigManager::remove_database(&mut config, "alpha").expect("registered");
    assert_eq!(removed.path, "/data/alpha.db");
    assert_eq!(config.active_db.as_deref(), Some("beta"));

    let removed = ConfigManager::remove_database(&mut config, "beta").expect("registered");
    assert_eq!(removed.name, "beta");
    assert_eq!(config.active_db, None);

    let missing = ConfigManager::remove_database(&mut config, "beta");
    assert_eq!(missing.unwrap_err(), ConfigError::DatabaseNotFound);
}

#[test]
fn listing_marks_the_active_entry() {
    let mut config = AppConfig::default();
    ConfigManager::add_database(&mut config, "alpha", "/data/alpha.db", "t0").expect("fresh");
    ConfigManager::add_database(&mut config, "beta", "/data/beta.db", "t1").expect("fresh");

    let listed = ConfigManager::list_databases(&config);
    assert_eq!(listed.len(), 2);
    assert!(listed[0].is_active);
    assert!(!listed[1].is_active);
}

#[test]
fn last_directory_round_trips() {
    let mut config = AppConfig::default();
    assert_eq!(ConfigManager::get_last_directory(&config), None);
    ConfigManager::set_last_directory(&mut config, "/data".to_string());
    assert_eq!(
        ConfigManager::get_last_directory(&config).as_deref(),
        Some("/data")
    );
}

#[test]
fn refresh_skips_known_paths_and_replaces_same_names() {
    let mut config = AppConfig::default();
    ConfigManager::add_database(&mut config, "alpha", "/data/alpha.db", "t0").expect("fresh");

    let discovered = vec![
        metadata("alpha", "/data/alpha.db"),
        metadata("beta", "/data/beta.db"),
        metadata("alpha", "/other/alpha.db"),
    ];
    ConfigManager::refresh_databases(&mut config, &discovered);

    assert_eq!(config.databases.len(), 2);
    assert_eq!(config.databases[0].name, "alpha");
    assert_eq!(config.databases[0].path, "/other/alpha.db");
    assert_eq!(config.databases[1].name, "beta");
}
