use rtk_core::commands::psql_cmd::PsqlModule;
use rtk_core::commands::CommandModule;
use rtk_core::Context;

fn make_context(command: &str, exit_code: i32) -> Context {
    Context {
        cwd: "/tmp".to_string(),
        exit_code,
        tool: "bash".to_string(),
        session_id: None,
        command: Some(command.to_string()),
    }
}

#[test]
fn test_psql_select_query() {
    let module = PsqlModule::new();
    let input = r#" id |  name  |         email
----+--------+----------------------
  1 | Alice  | alice@example.com
  2 | Bob    | bob@example.com
  3 | Charlie| charlie@example.com
(3 rows)
"#;
    let result = module
        .compress(input, &make_context("psql -c \"SELECT * FROM users\"", 0))
        .unwrap();

    assert!(result.contains("Columns:"));
    assert!(result.contains("Rows: 3"));
}

#[test]
fn test_psql_error() {
    let module = PsqlModule::new();
    let input = r#"ERROR:  relation "nonexistent" does not exist
LINE 1: SELECT * FROM nonexistent;
              ^
"#;
    let result = module
        .compress(
            input,
            &make_context("psql -c \"SELECT * FROM nonexistent\"", 1),
        )
        .unwrap();

    assert!(result.contains("ERROR") || result.contains("does not exist"));
}

#[test]
fn test_psql_insert() {
    let module = PsqlModule::new();
    let input = "INSERT 0 5";
    let result = module
        .compress(input, &make_context("psql -c \"INSERT INTO users ...\"", 0))
        .unwrap();

    assert!(result.contains("Inserted: 5"));
}

#[test]
fn test_psql_update() {
    let module = PsqlModule::new();
    let input = "UPDATE 3";
    let result = module
        .compress(input, &make_context("psql -c \"UPDATE users SET ...\"", 0))
        .unwrap();

    assert!(result.contains("Updated: 3"));
}

#[test]
fn test_psql_delete() {
    let module = PsqlModule::new();
    let input = "DELETE 10";
    let result = module
        .compress(input, &make_context("psql -c \"DELETE FROM users ...\"", 0))
        .unwrap();

    assert!(result.contains("Deleted: 10"));
}

#[test]
fn test_psql_empty_output() {
    let module = PsqlModule::new();
    let result = module.compress("", &make_context("psql", 0)).unwrap();

    assert_eq!(result, "(no output)");
}

#[test]
fn test_psql_connection_error() {
    let module = PsqlModule::new();
    let input = "psql: could not connect to server: Connection refused";
    let result = module
        .compress(input, &make_context("psql -h localhost", 2))
        .unwrap();

    assert!(result.contains("Connection refused") || result.contains("could not connect"));
}

#[test]
fn test_psql_create_table() {
    let module = PsqlModule::new();
    let input = "CREATE TABLE";
    let result = module
        .compress(
            input,
            &make_context("psql -c \"CREATE TABLE users (...)\"", 0),
        )
        .unwrap();

    assert!(result.contains("Table created"));
}

#[test]
fn test_psql_wide_table() {
    let module = PsqlModule::new();
    let input = r#" id | col1 | col2 | col3 | col4 | col5 | col6 | col7 | col8
----+------+------+------+------+------+------+------+-----
  1 | a    | b    | c    | d    | e    | f    | g    | h
(1 row)
"#;
    let result = module
        .compress(
            input,
            &make_context("psql -c \"SELECT * FROM wide_table\"", 0),
        )
        .unwrap();

    assert!(result.contains("Columns:"));
    assert!(result.contains("Rows: 1"));
}

#[test]
fn test_psql_many_rows() {
    let module = PsqlModule::new();
    let mut input = String::from(" id | name\n----+------\n");
    for i in 1..=50 {
        input.push_str(&format!(" {:2} | user{}\n", i, i));
    }
    input.push_str("(50 rows)\n");

    let result = module
        .compress(&input, &make_context("psql -c \"SELECT * FROM users\"", 0))
        .unwrap();

    assert!(result.contains("Rows: 50"));
}

#[test]
fn test_psql_syntax_error() {
    let module = PsqlModule::new();
    let input = r#"ERROR:  syntax error at or near "SELCT"
LINE 1: SELCT * FROM users;
    ^
"#;
    let result = module
        .compress(input, &make_context("psql -c \"SELCT * FROM users\"", 1))
        .unwrap();

    assert!(result.contains("syntax error") || result.contains("ERROR"));
}

#[test]
fn test_psql_auth_error() {
    let module = PsqlModule::new();
    let input = "psql: FATAL:  password authentication failed for user \"postgres\"";
    let result = module
        .compress(input, &make_context("psql -U postgres", 2))
        .unwrap();

    assert!(result.contains("password authentication failed") || result.contains("FATAL"));
}

#[test]
fn test_psql_single_row() {
    let module = PsqlModule::new();
    let input = r#" id | name
----+------
  1 | Alice
(1 row)
"#;
    let result = module
        .compress(
            input,
            &make_context("psql -c \"SELECT * FROM users WHERE id=1\"", 0),
        )
        .unwrap();

    assert!(result.contains("Rows: 1"));
    // Should show the single row data
    assert!(result.contains("Data:") || result.contains("Alice"));
}
