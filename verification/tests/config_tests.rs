use hotkeyd::action::{Action, RawAction, RawValue};
use hotkeyd::bind::{parse_bind, BindError};
use hotkeyd::config::{Config, ConfigError};

fn cmd_entry(combo: &str, command: &str) -> (String, Option<RawAction>) {
    (
        combo.to_string(),
        Some(RawAction {
            kind: Some(RawValue::Text("cmd".to_string())),
            command: Some(RawValue::Text(command.to_string())),
        }),
    )
}

#[test]
fn action_reader_accepts_cmd() {
    let raw = RawAction {
        kind: Some(RawValue::Text("cmd".to_string())),
        command: Some(RawValue::Text("echo hi".to_string())),
    };
    assert_eq!(
        Action::new_from_config_map(&raw),
        Some(Action::Cmd { command: "echo hi".to_string() })
    );
}

#[test]
fn action_reader_rejects_bad_tables() {
    let no_type = RawAction { kind: None, command: Some(RawValue::Text("x".to_string())) };
    assert_eq!(Action::new_from_config_map(&no_type), None);
    let type_not_string =
        RawAction { kind: Some(RawValue::Other), command: Some(RawValue::Text("x".to_string())) };
    assert_eq!(Action::new_from_config_map(&type_not_string), None);
    let wrong_type = RawAction {
        kind: Some(RawValue::Text("macro".to_string())),
        command: Some(RawValue::Text("x".to_string())),
    };
    assert_eq!(Action::new_from_config_map(&wrong_type), None);
    let no_command = RawAction { kind: Some(RawValue::Text("cmd".to_string())), command: None };
    assert_eq!(Action::new_from_config_map(&no_command), None);
    let command_not_string =
        RawAction { kind: Some(RawValue::Text("cmd".to_string())), command: Some(RawValue::Other) };
    assert_eq!(Action::new_from_config_map(&command_not_string), None);
}

#[test]
fn empty_table_answers_nothing() {
    let config = Config::new();
    assert_eq!(config.len(), 0);
    let bind = parse_bind("left-shift + q").unwrap();
    assert!(config.lookup(&bind).is_none());
}

#[test]
fn table_from_n_entries_has_n_binds() {
    let entries = vec![
        cmd_entry("left-shift + q", "echo one"),
        cmd_entry("left-control + q", "echo two"),
        cmd_entry("left-shift + left-control + a", "echo three"),
    ];
    let config = Config::from_entries(&entries).unwrap();
    assert_eq!(config.len(), 3);
    let bind = parse_bind("left-control + q").unwrap();
    assert_eq!(
        config.lookup(&bind),
        Some(&Action::Cmd { command: "echo two".to_string() })
    );
    let miss = parse_bind("right-shift + q").unwrap();
    assert!(config.lookup(&miss).is_none());
}

#[test]
fn lookup_is_order_independent() {
    let entries = vec![cmd_entry("left-shift + left-control + q", "echo hi")];
    let config = Config::from_entries(&entries).unwrap();
    let other_order = parse_bind("left-control + q + left-shift").unwrap();
    assert_eq!(
        config.lookup(&other_order),
        Some(&Action::Cmd { command: "echo hi".to_string() })
    );
}

#[test]
fn duplicate_bind_rejects_the_load() {
    // The same bind spelled in two token orders is one bind.
    let entries = vec![
        cmd_entry("left-shift + q", "echo one"),
        cmd_entry("q + left-shift", "echo two"),
    ];
    assert_eq!(Config::from_entries(&entries).unwrap_err(), ConfigError::DuplicateBind);
}

#[test]
fn malformed_combination_rejects_the_load() {
    let entries = vec![cmd_entry("left-shift + banana", "echo hi")];
    assert_eq!(
        Config::from_entries(&entries).unwrap_err(),
        ConfigError::Bind(BindError::UnknownToken)
    );
    let entries = vec![cmd_entry("q", "echo hi")];
    assert_eq!(
        Config::from_entries(&entries).unwrap_err(),
        ConfigError::Bind(BindError::NoModifiers)
    );
}

#[test]
fn non_table_bind_value_rejects_the_load() {
    let entries = vec![("left-shift + q".to_string(), None)];
    assert_eq!(Config::from_entries(&entries).unwrap_err(), ConfigError::ActionNotTable);
}

#[test]
fn invalid_action_rejects_the_load() {
    let entries = vec![(
        "left-shift + q".to_string(),
        Some(RawAction { kind: None, command: None }),
    )];
    assert_eq!(Config::from_entries(&entries).unwrap_err(), ConfigError::InvalidAction);
}

#[test]
fn load_from_toml_text() {
    let text = "[binds]\n\"left-shift + q\" = { type = \"cmd\", command = \"echo hi\" }\n";
    let config = Config::new_from_str(text).unwrap();
    assert_eq!(config.len(), 1);
    let bind = parse_bind("left-shift + q").unwrap();
    assert_eq!(
        config.lookup(&bind),
        Some(&Action::Cmd { command: "echo hi".to_string() })
    );
}

#[test]
fn load_from_empty_file_yields_empty_table() {
    let config = Config::new_from_str("").unwrap();
    assert_eq!(config.len(), 0);
}

#[test]
fn load_without_binds_section_yields_empty_table() {
    let config = Config::new_from_str("[other]\nx = 1\n").unwrap();
    assert_eq!(config.len(), 0);
}

#[test]
fn load_rejects_bad_toml() {
    assert_eq!(Config::new_from_str("= = =").unwrap_err(), ConfigError::Syntax);
}

#[test]
fn load_rejects_non_table_binds() {
    assert_eq!(Config::new_from_str("binds = 3\n").unwrap_err(), ConfigError::BindsNotTable);
}

#[test]
fn load_rejects_non_table_bind_value() {
    let text = "[binds]\n\"left-shift + q\" = 7\n";
    assert_eq!(Config::new_from_str(text).unwrap_err(), ConfigError::ActionNotTable);
}

#[test]
fn load_rejects_duplicate_across_orderings() {
    let text = "[binds]\n\"left-shift + q\" = { type = \"cmd\", command = \"echo one\" }\n\"q + left-shift\" = { type = \"cmd\", command = \"echo two\" }\n";
    assert_eq!(Config::new_from_str(text).unwrap_err(), ConfigError::DuplicateBind);
}

#[test]
fn load_rejects_invalid_action_table() {
    let text = "[binds]\n\"left-shift + q\" = { command = \"echo hi\" }\n";
    assert_eq!(Config::new_from_str(text).unwrap_err(), ConfigError::InvalidAction);
}
