use wowserver::{
    collect_outcome, directive_for, get_config, get_server_from, parse_config, realmlist_line, target_paths,
    verify_config, ConfigError, ConfigTable, ConfigValue, LoadError, ReadFailure, RunError, Section,
    TargetStatus, WriteFailure, PATHS_SHAPE_ERROR, REALMLIST_FILE,
};

fn s(x: &str) -> ConfigValue {
    ConfigValue::Str(x.to_string())
}

fn servers(pairs: &[(&str, &str)]) -> ConfigValue {
    let mut t = ConfigTable::new();
    for (k, v) in pairs {
        t.insert(k.to_string(), s(v));
    }
    ConfigValue::Table(t)
}

fn doc(paths: Option<ConfigValue>, srv: Option<ConfigValue>) -> ConfigTable {
    let mut t = ConfigTable::new();
    if let Some(p) = paths {
        t.insert("PATHS".to_string(), p);
    }
    if let Some(v) = srv {
        t.insert("SERVERS".to_string(), v);
    }
    t
}

fn alias_doc() -> ConfigTable {
    doc(
        Some(ConfigValue::Array(vec![s("/games/wow")])),
        Some(servers(&[("Alias", "realm.example.com")])),
    )
}

#[test]
fn table_insert_replaces() {
    let mut t = ConfigTable::new();
    t.insert("a".to_string(), ConfigValue::Integer(1));
    t.insert("b".to_string(), ConfigValue::Boolean(true));
    t.insert("a".to_string(), ConfigValue::Integer(2));
    assert_eq!(t.len(), 2);
    assert!(matches!(t.get("a"), Some(ConfigValue::Integer(2))));
    assert!(matches!(t.get("b"), Some(ConfigValue::Boolean(true))));
    assert!(t.get("c").is_none());
}

#[test]
fn valid_document_passes() {
    assert_eq!(verify_config(&alias_doc()), Ok(()));
}

#[test]
fn missing_paths_reported() {
    let d = doc(None, Some(servers(&[("a", "b")])));
    assert_eq!(verify_config(&d), Err(ConfigError::MissingSection(Section::Paths)));
}

#[test]
fn missing_both_reports_paths() {
    let d = doc(None, None);
    assert_eq!(verify_config(&d), Err(ConfigError::MissingSection(Section::Paths)));
}

#[test]
fn missing_servers_reported() {
    let d = doc(Some(ConfigValue::Array(vec![s("/x")])), None);
    assert_eq!(verify_config(&d), Err(ConfigError::MissingSection(Section::Servers)));
}

#[test]
fn paths_number_is_invalid() {
    let d = doc(Some(ConfigValue::Integer(3)), Some(servers(&[("a", "b")])));
    assert_eq!(verify_config(&d), Err(ConfigError::InvalidFormat(Section::Paths)));
}

#[test]
fn paths_first_not_string_is_invalid() {
    let d = doc(
        Some(ConfigValue::Array(vec![ConfigValue::Integer(1), s("/x")])),
        Some(servers(&[("a", "b")])),
    );
    assert_eq!(verify_config(&d), Err(ConfigError::InvalidFormat(Section::Paths)));
}

#[test]
fn empty_paths_is_invalid() {
    let d = doc(Some(ConfigValue::Array(vec![])), Some(servers(&[("a", "b")])));
    assert_eq!(verify_config(&d), Err(ConfigError::InvalidFormat(Section::Paths)));
}

#[test]
fn paths_only_first_element_sampled() {
    let d = doc(
        Some(ConfigValue::Array(vec![s("/x"), ConfigValue::Integer(1)])),
        Some(servers(&[("a", "b")])),
    );
    assert_eq!(verify_config(&d), Ok(()));
}

#[test]
fn servers_not_table_is_invalid() {
    let d = doc(Some(ConfigValue::Array(vec![s("/x")])), Some(s("main")));
    assert_eq!(verify_config(&d), Err(ConfigError::InvalidFormat(Section::Servers)));
}

#[test]
fn servers_first_value_not_string_is_invalid() {
    let mut t = ConfigTable::new();
    t.insert("a".to_string(), ConfigValue::Integer(5));
    let d = doc(Some(ConfigValue::Array(vec![s("/x")])), Some(ConfigValue::Table(t)));
    assert_eq!(verify_config(&d), Err(ConfigError::InvalidFormat(Section::Servers)));
}

#[test]
fn malformed_paths_wins_over_missing_servers() {
    let d = doc(Some(s("/x")), None);
    assert_eq!(verify_config(&d), Err(ConfigError::InvalidFormat(Section::Paths)));
}

#[test]
fn error_messages() {
    assert_eq!(
        ConfigError::MissingSection(Section::Paths).message(),
        "missing section <PATHS> in the settings file"
    );
    assert_eq!(
        ConfigError::InvalidFormat(Section::Servers).message(),
        "invalid format of section <SERVERS> in the settings file"
    );
    assert_eq!(Section::Servers.key(), "SERVERS");
}

#[test]
fn alias_ignores_case() {
    let d = alias_doc();
    let expected = Some("realm.example.com".to_string());
    assert_eq!(get_server_from("ALIAS", &d), expected);
    assert_eq!(get_server_from("alias", &d), expected);
    assert_eq!(get_server_from("AliAs", &d), expected);
}

#[test]
fn literal_value_fallback() {
    let d = doc(
        Some(ConfigValue::Array(vec![s("/x")])),
        Some(servers(&[("main", "realm.example.com")])),
    );
    assert_eq!(get_server_from("realm.example.com", &d), Some("realm.example.com".to_string()));
}

#[test]
fn literal_value_is_case_sensitive() {
    let d = doc(
        Some(ConfigValue::Array(vec![s("/x")])),
        Some(servers(&[("main", "realm.example.com")])),
    );
    assert_eq!(get_server_from("REALM.example.com", &d), None);
}

#[test]
fn unknown_server() {
    let d = doc(
        Some(ConfigValue::Array(vec![s("/x")])),
        Some(servers(&[("main", "realm.example.com")])),
    );
    assert_eq!(get_server_from("nope", &d), None);
}

#[test]
fn no_servers_table_resolves_nothing() {
    let d = doc(Some(ConfigValue::Array(vec![s("/x")])), Some(s("main")));
    assert_eq!(get_server_from("main", &d), None);
}

#[test]
fn alias_before_literal() {
    let d = doc(
        Some(ConfigValue::Array(vec![s("/x")])),
        Some(servers(&[("a.test", "b.test"), ("b", "a.test")])),
    );
    assert_eq!(get_server_from("A.TEST", &d), Some("b.test".to_string()));
}

#[test]
fn parse_document() {
    let r = parse_config("PATHS = [\"./realmA\"]\n\n[SERVERS]\npvp = \"login.pvp.test\"\n");
    let t = match r {
        Ok(t) => t,
        Err(_) => panic!("document should parse"),
    };
    assert_eq!(t.len(), 2);
    assert!(matches!(t.get("PATHS"), Some(ConfigValue::Array(a)) if a.len() == 1));
    assert_eq!(verify_config(&t), Ok(()));
}

#[test]
fn parse_keeps_value_kinds() {
    let r = parse_config("a = 1\nb = true\nc = \"x\"\nd = 1979-05-27\ne = 1.5\n[f]\ng = [1, 2]\n");
    let t = match r {
        Ok(t) => t,
        Err(_) => panic!("document should parse"),
    };
    assert!(matches!(t.get("a"), Some(ConfigValue::Integer(1))));
    assert!(matches!(t.get("b"), Some(ConfigValue::Boolean(true))));
    assert!(matches!(t.get("c"), Some(ConfigValue::Str(x)) if x == "x"));
    assert!(matches!(t.get("d"), Some(ConfigValue::Datetime(x)) if x == "1979-05-27"));
    assert!(matches!(t.get("e"), Some(ConfigValue::Float(x)) if x == "1.5"));
    match t.get("f") {
        Some(ConfigValue::Table(f)) => {
            assert!(matches!(f.get("g"), Some(ConfigValue::Array(a)) if a.len() == 2))
        }
        _ => panic!("f should be a table"),
    }
}

#[test]
fn parse_error_is_reported() {
    match parse_config("PATHS = [") {
        Err(LoadError::ParseError(m)) => assert!(!m.is_empty()),
        _ => panic!("expected a parse error"),
    }
}

#[test]
fn read_failures_map_to_load_errors() {
    assert!(matches!(get_config(Err(ReadFailure::NotFound)), Err(LoadError::NotFound)));
    assert!(matches!(
        get_config(Err(ReadFailure::PermissionDenied)),
        Err(LoadError::PermissionDenied)
    ));
    match get_config(Err(ReadFailure::Other("disk on fire".to_string()))) {
        Err(e) => assert_eq!(e.message(), "disk on fire"),
        Ok(_) => panic!("expected an error"),
    }
    assert_eq!(LoadError::NotFound.message(), "the settings file does not exist");
    assert!(get_config(Ok("PATHS = [\"a\"]".to_string())).is_ok());
}

#[test]
fn target_paths_in_order() {
    let d = doc(Some(ConfigValue::Array(vec![s("/a"), s("/b")])), None);
    assert_eq!(target_paths(&d), Ok(vec!["/a".to_string(), "/b".to_string()]));
}

#[test]
fn target_paths_shape_errors() {
    let bad = Err(PATHS_SHAPE_ERROR.to_string());
    assert_eq!(target_paths(&doc(None, None)), bad);
    assert_eq!(target_paths(&doc(Some(ConfigValue::Integer(2)), None)), bad);
    let mixed = doc(Some(ConfigValue::Array(vec![s("/a"), ConfigValue::Integer(1)])), None);
    assert_eq!(target_paths(&mixed), bad);
}

#[test]
fn all_written_means_no_failures() {
    let targets = vec!["/a".to_string(), "/b".to_string()];
    let st = vec![
        TargetStatus::Written("/a/realmlist.wtf".to_string()),
        TargetStatus::Written("/b/realmlist.wtf".to_string()),
    ];
    let r = collect_outcome(&targets, &st);
    assert_eq!(r.ok_paths().len(), 2);
    assert!(r.failed_paths().is_empty());
}

#[test]
fn partial_failure_isolated() {
    let targets = vec!["/existing/dir".to_string(), "/missing/dir".to_string()];
    let st = vec![
        TargetStatus::Written("/existing/dir/realmlist.wtf".to_string()),
        TargetStatus::NotADirectory,
    ];
    let r = collect_outcome(&targets, &st);
    assert_eq!(r.ok_paths(), &vec!["/existing/dir/realmlist.wtf".to_string()]);
    assert_eq!(
        r.failed_paths(),
        &vec![("/missing/dir".to_string(), "invalid path: `/missing/dir`".to_string())]
    );
}

#[test]
fn write_failures_classified() {
    let targets = vec!["/a".to_string(), "/b".to_string(), "/c".to_string()];
    let st = vec![
        TargetStatus::Failed("/a/realmlist.wtf".to_string(), WriteFailure::NotFound),
        TargetStatus::Failed("/b/realmlist.wtf".to_string(), WriteFailure::PermissionDenied),
        TargetStatus::Failed("/c/realmlist.wtf".to_string(), WriteFailure::Other("disk full".to_string())),
    ];
    let r = collect_outcome(&targets, &st);
    assert!(r.ok_paths().is_empty());
    assert_eq!(
        r.failed_paths(),
        &vec![
            ("/a/realmlist.wtf".to_string(), "invalid path: `/a`".to_string()),
            (
                "/b/realmlist.wtf".to_string(),
                "insufficient permissions to modify `/b/realmlist.wtf`".to_string()
            ),
            ("/c/realmlist.wtf".to_string(), "disk full".to_string()),
        ]
    );
}

#[test]
fn repeated_failure_keeps_one_entry() {
    let targets = vec!["/m".to_string(), "/m".to_string()];
    let st = vec![TargetStatus::NotADirectory, TargetStatus::NotADirectory];
    let r = collect_outcome(&targets, &st);
    assert_eq!(r.failed_paths().len(), 1);
}

#[test]
fn report_lists_both_blocks() {
    let targets = vec!["/a".to_string(), "/m".to_string()];
    let st = vec![TargetStatus::Written("/a/realmlist.wtf".to_string()), TargetStatus::NotADirectory];
    let r = collect_outcome(&targets, &st);
    assert_eq!(
        r.report_lines(),
        vec![
            "ok: [".to_string(),
            "    /a/realmlist.wtf".to_string(),
            "]".to_string(),
            "error: {".to_string(),
            "    invalid path: `/m`".to_string(),
            "}".to_string(),
        ]
    );
    let empty = collect_outcome(&vec![], &vec![]);
    assert!(empty.report_lines().is_empty());
}

#[test]
fn directive_line() {
    assert_eq!(realmlist_line("login.pvp.test"), "set realmlist login.pvp.test");
    assert_eq!(REALMLIST_FILE, "realmlist.wtf");
}

#[test]
fn end_to_end_directive() {
    let t = match parse_config("PATHS = [\"./realmA\"]\nSERVERS = { pvp = \"login.pvp.test\" }\n") {
        Ok(t) => t,
        Err(_) => panic!("document should parse"),
    };
    assert_eq!(verify_config(&t), Ok(()));
    let address = get_server_from("pvp", &t).expect("pvp resolves");
    assert_eq!(realmlist_line(&address), "set realmlist login.pvp.test");
    assert_eq!(target_paths(&t), Ok(vec!["./realmA".to_string()]));
}

#[test]
fn directive_for_resolved_server() {
    let d = alias_doc();
    match directive_for("alias", &d) {
        Ok(line) => assert_eq!(line, "set realmlist realm.example.com"),
        Err(_) => panic!("alias should resolve"),
    }
}

#[test]
fn directive_for_unknown_server() {
    match directive_for("nope", &alias_doc()) {
        Err(e @ RunError::UnknownServer(_)) => {
            assert_eq!(e.message(), "value `nope` does not exist in the settings file")
        }
        _ => panic!("expected an unknown server"),
    }
}

#[test]
fn directive_for_bad_document() {
    let d = doc(None, Some(servers(&[("a", "b")])));
    match directive_for("a", &d) {
        Err(RunError::Config(e)) => assert_eq!(e, ConfigError::MissingSection(Section::Paths)),
        _ => panic!("expected a configuration error"),
    }
}
