use engine::cli::{build_preview_sql, plan, valid_table_name, Plan, UsageError};

fn args_of(parts: &[&str]) -> Vec<String> {
    parts.iter().map(|s| s.to_string()).collect()
}

#[test]
fn preview_rejects_injection_before_any_query() {
    let r = plan(&args_of(&["engine", "preview", "postgres://db", "users; DROP TABLE x"]));
    assert_eq!(r.unwrap_err(), UsageError::InvalidTableName);
}

#[test]
fn preview_rejects_empty_table_name() {
    // The table must match one or more characters of the allowed class:
    // an empty name is a usage error, not a query.
    let r = plan(&args_of(&["engine", "preview", "postgres://db", ""]));
    assert_eq!(r.unwrap_err(), UsageError::InvalidTableName);
}

#[test]
fn preview_rejects_space_quote_and_semicolon() {
    assert!(!valid_table_name("two words"));
    assert!(!valid_table_name("na\"me"));
    assert!(!valid_table_name("na'me"));
    assert!(!valid_table_name("name;"));
    assert!(!valid_table_name("caf\u{e9}"));
    assert!(valid_table_name("Users_2"));
    assert!(valid_table_name(""));
}

#[test]
fn preview_builds_quoted_limited_statement() {
    let r = plan(&args_of(&["engine", "preview", "postgres://db", "users"]));
    match r.unwrap() {
        Plan::Preview { conn, query } => {
            assert_eq!(conn, "postgres://db");
            assert_eq!(query, "SELECT * FROM \"users\" LIMIT 5");
        }
        _ => panic!("expected a preview plan"),
    }
    assert_eq!(build_preview_sql("t_1"), "SELECT * FROM \"t_1\" LIMIT 5");
}

#[test]
fn exec_mode_passes_sql_through() {
    let r = plan(&args_of(&["engine", "exec", "postgres://db", "SELECT 1"]));
    match r.unwrap() {
        Plan::Exec { conn, sql } => {
            assert_eq!(conn, "postgres://db");
            assert_eq!(sql, "SELECT 1");
        }
        _ => panic!("expected an exec plan"),
    }
}

#[test]
fn unrecognized_mode_is_schema_dump() {
    let r = plan(&args_of(&["engine", "schema", "postgres://db"]));
    match r.unwrap() {
        Plan::Schema { conn } => assert_eq!(conn, "postgres://db"),
        _ => panic!("expected a schema plan"),
    }
}

#[test]
fn missing_arguments_are_usage_errors() {
    assert_eq!(plan(&args_of(&["engine"])).unwrap_err(), UsageError::MissingMode);
    assert_eq!(plan(&args_of(&["engine", "exec"])).unwrap_err(), UsageError::MissingConn);
    assert_eq!(plan(&args_of(&["engine", "exec", "c"])).unwrap_err(), UsageError::MissingQuery);
    assert_eq!(plan(&args_of(&["engine", "preview", "c"])).unwrap_err(), UsageError::MissingTable);
}

#[test]
fn usage_error_messages() {
    assert_eq!(UsageError::MissingMode.message(), "Usage: engine <mode> <conn> [args...]");
    assert_eq!(UsageError::MissingConn.message(), "Missing connection string");
    assert_eq!(UsageError::MissingQuery.message(), "Missing SQL query");
    assert_eq!(UsageError::MissingTable.message(), "Missing table name");
    assert_eq!(UsageError::InvalidTableName.message(), "Invalid table name");
}
