use drawdb::init::{
    keep_statements, split_script, sql_statements, Config, DatabaseConfig, OptionsConfig,
    ServerConfig,
};

fn strings(items: &[&str]) -> Vec<String> {
    items.iter().map(|s| s.to_string()).collect()
}

#[test]
fn script_is_split_at_every_semicolon() {
    assert_eq!(split_script("a;b;;c"), strings(&["a", "b", "", "c"]));
    assert_eq!(split_script("a;"), strings(&["a", ""]));
    assert_eq!(split_script(";"), strings(&["", ""]));
    assert_eq!(split_script(""), strings(&[""]));
    assert_eq!(split_script("no separator"), strings(&["no separator"]));
    assert_eq!(split_script("名;称"), strings(&["名", "称"]));
}

#[test]
fn empty_texts_are_dropped() {
    assert_eq!(keep_statements(strings(&["", "a", "", "b", ""])), strings(&["a", "b"]));
    assert_eq!(keep_statements(strings(&["", ""])), strings(&[]));
    assert_eq!(keep_statements(vec![]), strings(&[]));
}

#[test]
fn statements_are_trimmed_and_empty_ones_dropped() {
    let script = "CREATE TABLE a (id TEXT);\n\n  CREATE TABLE b (id TEXT) ;\n;  \t\n";
    assert_eq!(
        sql_statements(script),
        strings(&["CREATE TABLE a (id TEXT)", "CREATE TABLE b (id TEXT)"])
    );
    assert_eq!(sql_statements(""), strings(&[]));
    assert_eq!(sql_statements(" ; ; "), strings(&[]));
    assert_eq!(sql_statements("  one statement  "), strings(&["one statement"]));
}

#[test]
fn setup_turns_the_switch_off_and_keeps_the_rest() {
    let config = Config {
        database: DatabaseConfig { path: "db.sqlite".to_string(), init_sql_path: "init.sql".to_string() },
        server: ServerConfig { port: 8080, host: "127.0.0.1".to_string() },
        options: OptionsConfig { init_db: true },
    };
    let next = config.after_setup();
    assert_eq!(next.options, OptionsConfig { init_db: false });
    assert_eq!(next.database, config.database);
    assert_eq!(next.server, config.server);
    assert_eq!(config.clone(), config);
    assert_eq!(next.after_setup(), next);
}
