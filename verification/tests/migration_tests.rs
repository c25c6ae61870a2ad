use migration_core::migrations::Migration;
use migration_core::users;

#[test]
fn test_migration_checksum() {
    let migration = Migration::new(
        "users",
        1,
        "create_users_table",
        "CREATE TABLE users (id UUID PRIMARY KEY);",
    );

    let checksum1 = migration.checksum();
    let checksum2 = migration.checksum();

    // Checksums should be consistent
    assert_eq!(checksum1, checksum2);
    assert!(!checksum1.is_empty());
}

#[test]
fn test_migration_id() {
    let migration = Migration::new("users", 1, "create_users", "");
    assert_eq!(migration.id(), "users:version_1");

    let migration2 = Migration::new("products", 5, "add_column", "");
    assert_eq!(migration2.id(), "products:version_5");
}

#[test]
fn test_different_sql_different_checksum() {
    let migration1 = Migration::new("users", 1, "test", "CREATE TABLE users;");
    let migration2 = Migration::new("users", 1, "test", "DROP TABLE users;");

    assert_ne!(migration1.checksum(), migration2.checksum());
}

#[test]
fn test_checksum_value() {
    // 41 characters, first 'C' (67), last ';' (59).
    let migration = Migration::new(
        "users",
        1,
        "create_users_table",
        "CREATE TABLE users (id UUID PRIMARY KEY);",
    );
    assert_eq!(migration.checksum(), "41-67-59");
}

#[test]
fn test_checksum_of_empty_sql() {
    // An empty body is a valid descriptor; both boundary characters
    // default to '0' (48).
    let migration = Migration::new("users", 1, "noop", "");
    assert_eq!(migration.checksum(), "0-48-48");
}

#[test]
fn test_id_of_negative_version() {
    let migration = Migration::new("users", -3, "odd", "");
    assert_eq!(migration.id(), "users:version_-3");
}

#[test]
fn test_migrations_array_not_empty() {
    let migrations = users::migrations();
    assert!(!migrations.is_empty());
    assert_eq!(migrations.len(), 1);
}

#[test]
fn test_migration_metadata() {
    let migrations = users::migrations();
    let migration = &migrations[0];
    assert_eq!(migration.module, "users");
    assert_eq!(migration.version, 1);
    assert_eq!(migration.name, "create_users_table");
    assert!(!migration.sql.is_empty());
}

#[test]
fn test_migrations_are_valid_sql() {
    for migration in users::migrations().iter() {
        assert!(!migration.sql.is_empty());
        assert!(migration.sql.contains("CREATE TABLE"));
    }
}

#[test]
fn test_migrations_have_unique_versions() {
    let mut versions = std::collections::HashSet::new();
    for migration in users::migrations().iter() {
        assert!(
            versions.insert(migration.version),
            "Duplicate version found: {}",
            migration.version
        );
    }
}

#[test]
fn listing_reports_id_and_checksum() {
    let migrations = users::migrations();
    let listing = migration_core::migrations::list_migrations(&migrations);
    assert_eq!(listing.len(), 1);
    assert_eq!(listing[0].module, "users");
    assert_eq!(listing[0].version, 1);
    assert_eq!(listing[0].name, "create_users_table");
    assert_eq!(listing[0].id, "users:version_1");
    assert_eq!(listing[0].checksum, migrations[0].checksum());
}
