use orion_agent_core::migrate::{migrations, pending_migrations, Migration, SESSION_SCHEMA};

#[test]
fn session_migration_creates_its_tables_only_when_absent() {
    let ms = migrations();
    assert_eq!(ms.len(), 1);
    assert_eq!(ms[0].version, 1);
    assert_eq!(ms[0].name, "create_session_tables");
    assert_eq!(ms[0].sql, SESSION_SCHEMA);
    assert!(SESSION_SCHEMA.contains("CREATE TABLE IF NOT EXISTS session_metadata"));
    assert!(SESSION_SCHEMA.contains("CREATE TABLE IF NOT EXISTS usage_stats"));
    assert!(!SESSION_SCHEMA.contains("DROP"));
}

#[test]
fn pending_migrations_are_those_above_the_current_version() {
    let ms = vec![
        Migration { version: 1, name: "a", sql: "" },
        Migration { version: 2, name: "b", sql: "" },
        Migration { version: 3, name: "c", sql: "" },
    ];
    assert_eq!(pending_migrations(&ms, 0), vec![0, 1, 2]);
    assert_eq!(pending_migrations(&ms, 1), vec![1, 2]);
    assert!(pending_migrations(&ms, 3).is_empty());
}

#[test]
fn migrations_run_twice_apply_once() {
    let ms = migrations();
    let first = pending_migrations(&ms, 0);
    assert_eq!(first, vec![0]);
    let recorded = ms[first[0]].version;
    assert!(pending_migrations(&ms, recorded).is_empty());
}
