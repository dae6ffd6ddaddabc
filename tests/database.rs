use mqtt_auth::database::{build_connection_url, ConnectAction, ConnectRetry, DbType};

#[test]
fn db_type_from_name() {
    assert_eq!(DbType::from_str("PostgreSQL"), DbType::Postgres);
    assert_eq!(DbType::from_str("POSTGRES"), DbType::Postgres);
    assert_eq!(DbType::from_str("mysql"), DbType::Mysql);
    assert_eq!(DbType::from_str("sqlite"), DbType::Mysql);
    assert_eq!(DbType::Postgres.as_str(), "postgres");
    assert_eq!(DbType::Mysql.as_str(), "mysql");
    assert_eq!(DbType::Mysql.emoji(), "\u{1f42c}");
    assert_eq!(DbType::Postgres.emoji(), "\u{1f418}");
}

#[test]
fn connection_urls() {
    assert_eq!(
        build_connection_url(DbType::Mysql, "db", 3306, "root", "pw", "iot"),
        "mysql://root:pw@db:3306/iot?ssl-mode=disabled"
    );
    assert_eq!(
        build_connection_url(DbType::Postgres, "localhost", 5432, "u", "p", "d"),
        "postgres://u:p@localhost:5432/d"
    );
    assert_eq!(build_connection_url(DbType::Postgres, "h", 0, "u", "p", "d"), "postgres://u:p@h:0/d");
}

#[test]
fn connect_retries_are_bounded() {
    let mut retry = ConnectRetry::new(2, 3);
    assert_eq!(retry.on_attempt(false), ConnectAction::RetryAfter(3));
    assert_eq!(retry.on_attempt(false), ConnectAction::RetryAfter(3));
    assert_eq!(retry.on_attempt(false), ConnectAction::GiveUp);
    let mut ok = ConnectRetry::new(10, 3);
    assert_eq!(ok.on_attempt(false), ConnectAction::RetryAfter(3));
    assert_eq!(ok.on_attempt(true), ConnectAction::Connected);
}
