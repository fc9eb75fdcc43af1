use cargo_cranky::args::{compose_args, parse_args, render_command, ParsedArgs, UsageError};
use cargo_cranky::config::{
    parse_config, resolve_step, search_ancestors, ConfigError, CrankyConfig, ReadOutcome,
    SearchStep,
};

#[test]
fn parse_toml_1() {
    let toml_text = r#"
            warn = [
                "aaa",
                "bbb",
            ]"#;
    let config: CrankyConfig = parse_config(toml_text).unwrap();

    assert_eq!(
        config,
        CrankyConfig {
            allow: vec![],
            warn: vec!["aaa".into(), "bbb".into()],
            deny: vec![],
        }
    )
}

#[test]
fn parse_toml_2() {
    let toml_text = r#"
            allow = [ "aaa" ]
            warn = [ "bbb" ]
            deny = [ "ccc" ]
        "#;
    let config: CrankyConfig = parse_config(toml_text).unwrap();

    assert_eq!(
        config,
        CrankyConfig {
            allow: vec!["aaa".into()],
            warn: vec!["bbb".into()],
            deny: vec!["ccc".into()],
        }
    );

    let args = config.extra_right_args().join(" ");
    // Ordering matters! deny -> warn -> allow is the intended behavior.
    assert_eq!(args, "-Dccc -Wbbb -Aaaa");
}

#[test]
fn parse_unrecognized_keys_ignored() {
    let toml_text = "edition = 2021\nnotes = \"hello\"\nwarn = [\"dup\"]\n";
    let config = parse_config(toml_text).unwrap();
    assert_eq!(config.allow, Vec::<String>::new());
    assert_eq!(config.warn, vec!["dup".to_string()]);
    assert_eq!(config.deny, Vec::<String>::new());
}

#[test]
fn parse_missing_keys_default_empty() {
    let config = parse_config("").unwrap();
    assert_eq!(config, CrankyConfig { allow: vec![], warn: vec![], deny: vec![] });
}

#[test]
fn parse_invalid_toml_is_fatal() {
    assert_eq!(parse_config("this is [ not toml"), Err(ConfigError::Toml));
}

#[test]
fn parse_scalar_value_is_shape_error() {
    assert_eq!(parse_config("warn = 5"), Err(ConfigError::Shape));
}

#[test]
fn parse_non_string_item_is_shape_error() {
    assert_eq!(parse_config("deny = [\"ok\", 3]"), Err(ConfigError::Shape));
}

#[test]
fn derived_flag_order_within_severity() {
    let config = CrankyConfig {
        allow: vec!["a1".into(), "a2".into()],
        warn: vec!["w1".into()],
        deny: vec!["d1".into(), "d2".into()],
    };
    assert_eq!(
        config.extra_right_args(),
        vec!["-Dd1", "-Dd2", "-Ww1", "-Aa1", "-Aa2"]
    );
}

#[test]
fn empty_config_composes_left_alone() {
    let config = CrankyConfig { allow: vec![], warn: vec![], deny: vec![] };
    let extra = config.extra_right_args();
    assert_eq!(extra, Vec::<String>::new());
    let composed = compose_args(vec!["a".into(), "b".into()], vec![], extra);
    assert_eq!(composed, vec!["a", "b"]);
}

#[test]
fn splice_after_separator() {
    let args = vec!["x".to_string(), "--".to_string(), "y".to_string()];
    let split = match parse_args(&args).unwrap() {
        ParsedArgs::Run(split) => split,
        other => panic!("expected a run, got {:?}", other),
    };
    assert_eq!(split.left, vec!["x"]);
    assert_eq!(split.right, vec!["y"]);
    let config = CrankyConfig { allow: vec![], warn: vec![], deny: vec!["zzz".into()] };
    let composed = compose_args(split.left, split.right, config.extra_right_args());
    assert_eq!(composed, vec!["x", "--", "y", "-Dzzz"]);
}

#[test]
fn second_separator_is_fatal() {
    let args = vec![
        "a".to_string(),
        "--".to_string(),
        "b".to_string(),
        "--".to_string(),
    ];
    assert!(matches!(parse_args(&args), Err(UsageError::ExtraSeparator)));
}

#[test]
fn help_short_circuits() {
    let args = vec!["-h".to_string()];
    assert!(matches!(parse_args(&args), Ok(ParsedArgs::Help)));

    // Help wins even over a later duplicate separator.
    let args = vec!["--help".to_string(), "--".to_string(), "--".to_string()];
    assert!(matches!(parse_args(&args), Ok(ParsedArgs::Help)));
}

#[test]
fn dry_run_flag_consumed() {
    let args = vec!["--dry-run".to_string(), "x".to_string()];
    let split = match parse_args(&args).unwrap() {
        ParsedArgs::Run(split) => split,
        other => panic!("expected a run, got {:?}", other),
    };
    assert!(split.options.dry_run);
    assert_eq!(split.options.verbose, 0);
    assert_eq!(split.left, vec!["x"]);
    assert_eq!(split.right, Vec::<String>::new());
}

#[test]
fn first_verbose_swallowed_later_passed_through() {
    let args = vec!["-v".to_string(), "-v".to_string(), "z".to_string()];
    let split = match parse_args(&args).unwrap() {
        ParsedArgs::Run(split) => split,
        other => panic!("expected a run, got {:?}", other),
    };
    assert_eq!(split.options.verbose, 2);
    assert_eq!(split.left, vec!["-v", "z"]);
}

#[test]
fn search_exhausted_yields_default() {
    let reads = vec![ReadOutcome::Absent, ReadOutcome::Absent, ReadOutcome::Absent];
    let config = search_ancestors(&reads).unwrap();
    assert_eq!(config, CrankyConfig::default());
}

#[test]
fn search_uses_file_two_levels_up() {
    let reads = vec![
        ReadOutcome::Absent,
        ReadOutcome::Absent,
        ReadOutcome::Found("deny = [\"q\"]".to_string()),
        ReadOutcome::Found("deny = [\"farther\"]".to_string()),
    ];
    let config = search_ancestors(&reads).unwrap();
    assert_eq!(config.deny, vec!["q"]);
    assert_eq!(config.allow, Vec::<String>::new());
    assert_eq!(config.warn, Vec::<String>::new());
}

#[test]
fn unreadable_file_is_fatal_not_absent() {
    let reads = vec![
        ReadOutcome::Absent,
        ReadOutcome::Unreadable,
        ReadOutcome::Found("deny = [\"q\"]".to_string()),
    ];
    assert_eq!(search_ancestors(&reads), Err(ConfigError::Unreadable));
    assert!(matches!(
        resolve_step(&ReadOutcome::Unreadable),
        SearchStep::Abort(ConfigError::Unreadable)
    ));
}

#[test]
fn malformed_file_is_fatal() {
    let reads = vec![ReadOutcome::Found("bad [".to_string())];
    assert_eq!(search_ancestors(&reads), Err(ConfigError::Toml));
}

#[test]
fn rendered_command_line() {
    let args = vec!["x".to_string(), "--".to_string(), "y".to_string()];
    assert_eq!(render_command(&args), "> cargo clippy x -- y");
    assert_eq!(render_command(&Vec::new()), "> cargo clippy ");
}
