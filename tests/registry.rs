use diesel::connection::SimpleConnection;
use tenancy::config::{ConnectionConfig, DatabaseKind};
use tenancy::registry::{lease_or_error, pool_or_error, McmError, MultiConnectionManager};

fn memory(name: &str, kind: DatabaseKind) -> ConnectionConfig {
    memory_sized(name, kind, 1)
}

fn memory_sized(name: &str, kind: DatabaseKind, size: u32) -> ConnectionConfig {
    ConnectionConfig::new(
        name.to_string(),
        kind,
        format!("{}.db", name),
        ":memory:".to_string(),
        None,
        size,
        None,
    )
}

#[test]
fn build_registers_each_distinct_name() {
    let configs = vec![
        memory("a", DatabaseKind::SQLite),
        memory("b", DatabaseKind::SQLite),
        memory("a", DatabaseKind::SQLite),
        memory("c", DatabaseKind::SQLite),
    ];
    let m = MultiConnectionManager::new(configs).unwrap();
    assert_eq!(m.len(), 3);
    for n in ["a", "b", "c"] {
        assert_eq!(m.kind_of(n), Some(DatabaseKind::SQLite));
        assert!(m.get_sqlite_conn(n).is_ok());
    }
    assert_eq!(m.kind_of("d"), None);
}

#[test]
fn build_keeps_url_and_size_of_last_config() {
    let file = ConnectionConfig::new(
        "a".to_string(),
        DatabaseKind::SQLite,
        "tenancy_registry_test.db".to_string(),
        "/tmp/".to_string(),
        None,
        2,
        None,
    );
    let file_url = file.conn_url();
    let configs = vec![memory_sized("a", DatabaseKind::SQLite, 3), file, memory_sized("b", DatabaseKind::SQLite, 4)];
    let m = MultiConnectionManager::new(configs).unwrap();
    assert_eq!(m.target_of("a"), Some((file_url.as_str(), 2)));
    assert_eq!(m.target_of("b"), Some((":memory:", 4)));
    assert_eq!(m.target_of("c"), None);
}

#[test]
fn build_of_nothing_is_empty() {
    let m = MultiConnectionManager::new(Vec::new()).unwrap();
    assert_eq!(m.len(), 0);
    assert!(matches!(
        m.get_sqlite_conn("x"),
        Err(McmError::InvalidConnectionNameError { db: DatabaseKind::SQLite, .. })
    ));
}

#[test]
fn build_without_a_mysql_driver_fails_whole() {
    let configs = vec![
        memory("ok", DatabaseKind::SQLite),
        memory("my", DatabaseKind::MySQL),
        memory("later", DatabaseKind::SQLite),
    ];
    match MultiConnectionManager::new(configs) {
        Err(McmError::ConnectionError { db, .. }) => assert_eq!(db, DatabaseKind::MySQL),
        Err(e) => panic!("unexpected error {:?}", e),
        Ok(_) => panic!("the build must fail"),
    }
}

#[test]
fn failed_pool_build_becomes_connection_error() {
    match pool_or_error::<u32>(DatabaseKind::Postgres, Err("refused".to_string())) {
        Err(McmError::ConnectionError { db, error }) => {
            assert_eq!(db, DatabaseKind::Postgres);
            assert_eq!(error, "refused");
        }
        other => panic!("unexpected {:?}", other),
    }
    assert!(matches!(pool_or_error(DatabaseKind::SQLite, Ok(7u32)), Ok(7)));
}

#[test]
fn failed_checkout_becomes_r2d2_error() {
    match lease_or_error::<u32>(DatabaseKind::SQLite, "s".to_string(), Err("timed out".to_string())) {
        Err(McmError::R2D2Error { db, conn_name, error }) => {
            assert_eq!(db, DatabaseKind::SQLite);
            assert_eq!(conn_name, "s");
            assert_eq!(error, "timed out");
        }
        other => panic!("unexpected {:?}", other),
    }
    assert!(matches!(lease_or_error(DatabaseKind::Postgres, "p".to_string(), Ok(1u32)), Ok(1)));
}

#[test]
fn wrong_backend_accessor_fails_with_type_error() {
    let m = MultiConnectionManager::new(vec![memory("cache_sqlite", DatabaseKind::SQLite)]).unwrap();
    assert!(matches!(
        m.get_pg_conn("cache_sqlite"),
        Err(McmError::InvalidConnectionTypeError { db: DatabaseKind::Postgres })
    ));
}

#[test]
fn unknown_name_fails_with_name_error() {
    let m = MultiConnectionManager::new(vec![memory("a", DatabaseKind::SQLite)]).unwrap();
    match m.get_pg_conn("missing") {
        Err(McmError::InvalidConnectionNameError { db, conn_name }) => {
            assert_eq!(db, DatabaseKind::Postgres);
            assert_eq!(conn_name, "missing");
        }
        _ => panic!("expected a name error"),
    }
}

#[test]
fn checkout_hands_out_a_working_connection() {
    let m = MultiConnectionManager::new(vec![memory("s", DatabaseKind::SQLite)]).unwrap();
    let mut c = m.get_sqlite_conn("s").unwrap();
    c.conn.batch_execute("CREATE TABLE t (x INTEGER); INSERT INTO t VALUES (1);").unwrap();
}

#[test]
fn cloned_registry_shares_its_pools() {
    let m = MultiConnectionManager::new(vec![memory("s", DatabaseKind::SQLite)]).unwrap();
    let copy = m.clone();
    assert_eq!(copy.len(), 1);
    assert!(copy.get_sqlite_conn("s").is_ok());
}
