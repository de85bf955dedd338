use git_sql::config::{ConfigEntry, ConfigValue, GitSqlConfig};

fn s(text: &str) -> String {
    String::from(text)
}

fn entry(key: &str, value: ConfigValue) -> ConfigEntry {
    ConfigEntry { key: s(key), value }
}

fn text(value: &str) -> ConfigValue {
    ConfigValue::Text(s(value))
}

fn config() -> GitSqlConfig {
    GitSqlConfig::with(ConfigValue::Table(vec![
        entry(
            "repositories",
            ConfigValue::Table(vec![
                entry(
                    "linux",
                    ConfigValue::Table(vec![
                        entry("postgres-url", text("postgres://db/linux")),
                        entry("local-path", text("/srv/linux.git")),
                        entry("depth", ConfigValue::Other),
                    ]),
                ),
                entry("broken", text("not a table")),
                entry("bare", ConfigValue::Table(vec![entry("postgres-url", ConfigValue::Other)])),
            ]),
        ),
        entry("server", ConfigValue::Table(vec![entry("bind", text("127.0.0.1:8080"))])),
    ]))
}

#[test]
fn repository_options_are_looked_up() {
    let config = config();
    assert_eq!(config.get_repo_db_url(&s("linux")), Some(s("postgres://db/linux")));
    assert_eq!(config.get_repo_cfg_str(&s("linux"), "local-path"), Some(s("/srv/linux.git")));
    assert_eq!(config.get_repo_cfg_str(&s("linux"), "depth"), None);
    assert_eq!(config.get_repo_cfg_str(&s("linux"), "other"), None);
    assert!(config.get_repo_cfg(&s("linux")).is_some());
}

#[test]
fn unknown_and_malformed_repositories_have_no_options() {
    let config = config();
    assert!(config.get_repo_cfg(&s("none")).is_none());
    assert!(config.get_repo_cfg(&s("broken")).is_none());
    assert_eq!(config.get_repo_db_url(&s("none")), None);
    assert_eq!(config.get_repo_db_url(&s("broken")), None);
    assert_eq!(config.get_repo_db_url(&s("bare")), None);
}

#[test]
fn server_table_is_looked_up() {
    let config = config();
    let server = config.get_server_cfg().unwrap();
    assert!(server.is_table());
    assert_eq!(server.get("bind").and_then(|bind| bind.as_str()), Some("127.0.0.1:8080"));
    assert!(server.get("port").is_none());
}

#[test]
fn an_empty_configuration_has_nothing() {
    let config = GitSqlConfig::empty();
    assert!(config.get_server_cfg().is_none());
    assert!(config.get_repo_cfg(&s("linux")).is_none());
    let odd = GitSqlConfig::with(ConfigValue::Table(vec![
        entry("server", text("text")),
        entry("repositories", ConfigValue::Other),
    ]));
    assert!(odd.get_server_cfg().is_none());
    assert!(odd.get_repo_cfg(&s("linux")).is_none());
}

#[test]
fn the_last_entry_under_a_key_counts() {
    let table = ConfigValue::Table(vec![entry("k", text("first")), entry("k", text("last"))]);
    assert_eq!(table.get("k").and_then(|v| v.as_str()), Some("last"));
    assert!(text("x").get("k").is_none());
}
