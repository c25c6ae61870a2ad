use migration_core::config::{ConfigError, DatabaseConfig, ModulesConfig, ServerConfig};
use migration_core::registry::{CompositionRoot, ModuleInfo, ModuleRegistry};

fn module(name: &str, version: &str) -> ModuleInfo {
    ModuleInfo {
        name: String::from(name),
        version: String::from(version),
        enabled: true,
    }
}

#[test]
fn registry_registers_and_looks_up() {
    let mut registry = ModuleRegistry::new();
    assert_eq!(registry.count(), 0);

    registry.register(module("users", "1.0"));
    registry.register(module("orders", "0.3"));
    assert_eq!(registry.count(), 2);

    let found = registry.get(&String::from("users")).expect("registered");
    assert_eq!(found.version, "1.0");
    assert!(registry.get(&String::from("billing")).is_none());
    assert_eq!(registry.list().len(), 2);
}

#[test]
fn registry_replaces_on_same_name() {
    let mut registry = ModuleRegistry::new();
    registry.register(module("users", "1.0"));
    registry.register(module("users", "2.0"));
    assert_eq!(registry.count(), 1);
    let found = registry.get(&String::from("users")).expect("registered");
    assert_eq!(found.version, "2.0");
}

#[test]
fn composition_root_holds_registry() {
    let root = CompositionRoot::new_with_in_memory();
    assert_eq!(root.registry().count(), 0);

    let mut registry = ModuleRegistry::new();
    registry.register(module("users", "1.0"));
    let root = CompositionRoot::with_registry(registry).expect("wiring succeeds");
    assert_eq!(root.registry().count(), 1);
}

#[test]
fn config_defaults() {
    let database = DatabaseConfig::default();
    assert_eq!(database.database_url, "postgres://localhost/repository_pattern");
    assert_eq!(database.max_connections, 10);

    let server = ServerConfig::default();
    assert_eq!(server.host, "0.0.0.0");
    assert_eq!(server.port, 3000);

    let modules = ModulesConfig::default();
    assert!(modules.users_enabled);
}

#[test]
fn config_error_messages() {
    assert_eq!(
        ConfigError::MissingEnvVar(String::from("DATABASE_URL")).message(),
        "Missing environment variable: DATABASE_URL"
    );
    assert_eq!(
        ConfigError::InvalidValue(String::from("SERVER_PORT")).message(),
        "Invalid configuration value for SERVER_PORT"
    );
    assert_eq!(
        ConfigError::Other(String::from("broken")).message(),
        "Configuration error: broken"
    );
}
