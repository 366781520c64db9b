use velocache::config::{
    config_location, get, init, Cache, Certs, ConfigError, ConfigLocation, ConfigSlot, Log, Management, Proxy, Rules,
    Settings,
};

fn settings(port: u16) -> Settings {
    Settings {
        proxy: Proxy { port, bind_address: "0.0.0.0".to_string(), user_agent: "ua".to_string(), whitelist: vec![] },
        cache: Cache { memory_items: 10, disk_path: None, ttl_seconds: 1 },
        management: Management { port: 8080, bind_address: "127.0.0.1".to_string() },
        log: Log { level: "debug".to_string() },
        certs: Certs { path: "certs".to_string() },
        rules: Rules::default(),
    }
}

#[test]
fn settings_are_set_once() {
    let mut slot = ConfigSlot::new();
    assert!(!slot.is_initialized());
    assert_eq!(init(&mut slot, settings(1)), Ok(()));
    assert!(slot.is_initialized());
    assert_eq!(init(&mut slot, settings(2)), Err(ConfigError::AlreadyInitialized));
    assert_eq!(get(&slot).proxy.port, 1);
    assert_eq!(ConfigError::AlreadyInitialized.message(), "Configuration already initialized");
}

#[test]
fn config_file_search_order() {
    assert_eq!(config_location(true, false, false, false), Ok(ConfigLocation::WorkingDirectory));
    assert_eq!(config_location(false, true, true, false), Ok(ConfigLocation::ExecutableDirectory));
    assert_eq!(config_location(false, true, false, true), Ok(ConfigLocation::ExecutableParentDirectory));
    assert_eq!(config_location(false, false, true, true), Err(ConfigError::NoExecutableDirectory));
    assert_eq!(config_location(false, true, false, false), Err(ConfigError::NoParentDirectory));
    assert_eq!(ConfigError::NoExecutableDirectory.message(), "Failed to get executable directory");
    assert_eq!(ConfigError::NoParentDirectory.message(), "Failed to get parent directory");
}

#[test]
fn default_rules_are_empty() {
    assert!(Rules::default().ignore_hosts.is_empty());
}

#[test]
fn first_settings_stay_after_a_refused_init() {
    let mut slot = ConfigSlot::new();
    assert_eq!(init(&mut slot, settings(7)), Ok(()));
    assert_eq!(init(&mut slot, settings(8)), Err(ConfigError::AlreadyInitialized));
    assert_eq!(init(&mut slot, settings(9)), Err(ConfigError::AlreadyInitialized));
    assert_eq!(get(&slot).proxy.port, 7);
    assert_eq!(get(&slot).log.level, "debug");
}
