use tenancy::config::{ConnectionConfig, DatabaseKind};

fn cfg(
    kind: DatabaseKind,
    db: &str,
    host: &str,
    schema: Option<&str>,
    options: Option<&str>,
) -> ConnectionConfig {
    ConnectionConfig::new(
        "conn".to_string(),
        kind,
        db.to_string(),
        host.to_string(),
        schema.map(|s| s.to_string()),
        5,
        options.map(|s| s.to_string()),
    )
}

#[test]
fn new_keeps_every_field() {
    let c = ConnectionConfig::new(
        "main_pg".to_string(),
        DatabaseKind::Postgres,
        "appdb".to_string(),
        "db.example.com:5432".to_string(),
        Some("tenant_a".to_string()),
        5,
        Some("sslmode=require".to_string()),
    );
    assert_eq!(c.connection_name(), "main_pg");
    assert_eq!(c.database(), DatabaseKind::Postgres);
    assert_eq!(c.database_name(), "appdb");
    assert_eq!(c.database_host_url(), "db.example.com:5432");
    assert_eq!(c.schema(), Some("tenant_a"));
    assert_eq!(c.connection_count(), 5);
    assert_eq!(c.options(), Some("sslmode=require"));
}

#[test]
fn pg_url_with_tenant_schema() {
    let c = ConnectionConfig::new(
        "main_pg".to_string(),
        DatabaseKind::Postgres,
        "appdb".to_string(),
        "db.example.com:5432".to_string(),
        Some("tenant_a".to_string()),
        5,
        None,
    );
    assert_eq!(
        c.conn_url(),
        "db.example.com:5432/appdb?options=-c%20search_path%3Dtenant_a,$user,public"
    );
}

#[test]
fn pg_url_without_schema_or_options_ends_with_defaults() {
    let c = cfg(DatabaseKind::Postgres, "appdb", "postgres://u:p@localhost:5432", None, None);
    let url = c.conn_url();
    assert_eq!(url, "postgres://u:p@localhost:5432/appdb?options=-c%20search_path%3D$user,public");
    assert!(url.ends_with("search_path%3D$user,public"));
}

#[test]
fn pg_url_with_options_only() {
    let c = cfg(DatabaseKind::Postgres, "appdb", "h:1", None, Some("sslmode=require"));
    assert_eq!(c.conn_url(), "h:1/appdb?sslmode=require&options=-c%20search_path%3D$user,public");
}

#[test]
fn pg_url_with_options_and_schema() {
    let c = cfg(DatabaseKind::Postgres, "appdb", "h:1", Some("t1"), Some("sslmode=require"));
    let url = c.conn_url();
    assert_eq!(url, "h:1/appdb?sslmode=require&options=-c%20search_path%3Dt1,$user,public");
    assert!(url.ends_with("search_path%3Dt1,$user,public"));
}

#[test]
fn pg_url_schema_comes_first_in_search_path() {
    for s in ["a", "tenant_b", "x_y_z"] {
        let url = cfg(DatabaseKind::Postgres, "d", "h", Some(s), None).conn_url();
        let tail = format!("search_path%3D{},$user,public", s);
        assert!(url.ends_with(&tail));
    }
}

#[test]
fn mysql_url_ignores_schema() {
    let c = cfg(DatabaseKind::MySQL, "shop", "mysql://root@localhost:3306", Some("other"), None);
    assert_eq!(c.conn_url(), "mysql://root@localhost:3306/shop");
}

#[test]
fn mysql_url_with_options() {
    let c = cfg(DatabaseKind::MySQL, "shop", "h:3306", None, Some("ssl-mode=DISABLED"));
    assert_eq!(c.conn_url(), "h:3306/shop?ssl-mode=DISABLED");
}

#[test]
fn sqlite_memory_sentinel_scenario() {
    let c = ConnectionConfig::new(
        "cache_sqlite".to_string(),
        DatabaseKind::SQLite,
        "cache.db".to_string(),
        ":memory:".to_string(),
        None,
        1,
        None,
    );
    assert_eq!(c.conn_url(), ":memory:");
}

#[test]
fn sqlite_memory_ignores_database_name() {
    for db in ["", "a.db", "other.sqlite"] {
        let c = cfg(DatabaseKind::SQLite, db, ":memory:", Some("s"), Some("o"));
        assert_eq!(c.conn_url(), ":memory:");
    }
}

#[test]
fn sqlite_file_path_joins_host_and_name() {
    let c = cfg(DatabaseKind::SQLite, "test1.db", "/var/data/", Some("s"), Some("o"));
    assert_eq!(c.conn_url(), "/var/data/test1.db");
    let bare = cfg(DatabaseKind::SQLite, "test1.db", "", None, None);
    assert_eq!(bare.conn_url(), "test1.db");
}
