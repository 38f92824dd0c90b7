use dprint_core::configuration::{ConfigKeyMap, ConfigKeyValue};
use dprint_core::plugins::CheckConfigUpdatesMessage;
use dprint_plugin_arity::{
    ArityHandler, Configuration, ConfigurationDiagnostic, GlobalConfiguration, LineEnding,
    NewLineKind, ResolvedConfiguration, build_parse_options, build_style, default_indent_width,
    default_line_ending, default_line_ending_value, default_line_width, file_matching,
    parse_line_ending,
};

fn no_globals() -> GlobalConfiguration {
    GlobalConfiguration {
        line_width: None,
        use_tabs: None,
        indent_width: None,
        new_line_kind: None,
    }
}

fn resolve(entries: Vec<(&str, ConfigKeyValue)>, global: &GlobalConfiguration) -> ResolvedConfiguration {
    let config: ConfigKeyMap = entries
        .into_iter()
        .map(|(key, value)| (key.to_string(), value))
        .collect();
    ArityHandler::new().resolve_config(config, global)
}

fn texts(diagnostics: &[ConfigurationDiagnostic]) -> Vec<(&str, &str)> {
    diagnostics
        .iter()
        .map(|d| (d.property_name.as_str(), d.message.as_str()))
        .collect()
}

#[test]
fn default_line_ending_follows_the_dprint_global() {
    let global = |kind| GlobalConfiguration {
        line_width: None,
        use_tabs: None,
        indent_width: None,
        new_line_kind: kind,
    };
    assert_eq!(default_line_ending(&global(None)), "auto");
    assert_eq!(
        default_line_ending(&global(Some(NewLineKind::Auto))),
        "auto"
    );
    assert_eq!(
        default_line_ending(&global(Some(NewLineKind::LineFeed))),
        "lf"
    );
    assert_eq!(
        default_line_ending(&global(Some(NewLineKind::CarriageReturnLineFeed))),
        "crlf"
    );
}

#[test]
fn unknown_line_ending_reports_a_diagnostic() {
    let mut diagnostics = Vec::new();
    assert_eq!(
        parse_line_ending("bogus", &mut diagnostics),
        LineEnding::Auto
    );
    assert_eq!(diagnostics.len(), 1);
    assert_eq!(diagnostics[0].property_name, "lineEnding");
}

#[test]
fn an_unknown_line_ending_is_quoted_in_lower_case() {
    let mut diagnostics = vec![ConfigurationDiagnostic {
        property_name: "first".to_string(),
        message: "stays".to_string(),
    }];
    parse_line_ending("BogÜs", &mut diagnostics);
    assert_eq!(
        texts(&diagnostics),
        vec![
            ("first", "stays"),
            (
                "lineEnding",
                "Unknown line ending 'bogÜs'. Expected one of: auto, lf, crlf, native."
            ),
        ]
    );
}

#[test]
fn line_endings_are_spelled_in_any_case() {
    let mut diagnostics = Vec::new();
    for (value, ending) in [
        ("auto", LineEnding::Auto),
        ("AUTO", LineEnding::Auto),
        ("lf", LineEnding::Lf),
        ("Lf", LineEnding::Lf),
        ("crlf", LineEnding::Crlf),
        ("CrLf", LineEnding::Crlf),
        ("native", LineEnding::Native),
        ("Native", LineEnding::Native),
    ] {
        assert_eq!(parse_line_ending(value, &mut diagnostics), ending);
    }
    assert_eq!(diagnostics, Vec::new());
    assert_eq!(parse_line_ending("", &mut diagnostics), LineEnding::Auto);
    assert_eq!(parse_line_ending(" lf", &mut diagnostics), LineEnding::Auto);
    assert_eq!(diagnostics.len(), 2);
}

#[test]
fn the_fallbacks_are_the_advertised_ones() {
    assert_eq!(default_line_width(), 80);
    assert_eq!(default_indent_width(), 2);
    assert_eq!(default_line_ending_value(), "auto");
}

#[test]
fn an_empty_block_resolves_to_the_fallbacks() {
    let resolved = resolve(vec![], &no_globals());
    assert_eq!(
        resolved.config,
        Configuration {
            line_width: 80,
            indent_width: 2,
            line_ending: "auto".to_string(),
            roxygen_markdown: false,
        }
    );
    assert_eq!(resolved.diagnostics, Vec::new());
}

#[test]
fn an_empty_block_takes_the_dprint_globals() {
    let global = GlobalConfiguration {
        line_width: Some(100),
        use_tabs: Some(true),
        indent_width: Some(8),
        new_line_kind: Some(NewLineKind::CarriageReturnLineFeed),
    };
    let resolved = resolve(vec![], &global);
    assert_eq!(
        resolved.config,
        Configuration {
            line_width: 100,
            indent_width: 8,
            line_ending: "crlf".to_string(),
            roxygen_markdown: false,
        }
    );
    assert_eq!(resolved.diagnostics, Vec::new());
}

#[test]
fn the_block_wins_over_the_dprint_globals() {
    let global = GlobalConfiguration {
        line_width: Some(100),
        use_tabs: None,
        indent_width: Some(8),
        new_line_kind: Some(NewLineKind::LineFeed),
    };
    let resolved = resolve(
        vec![
            ("roxygenMarkdown", ConfigKeyValue::from_bool(true)),
            ("lineEnding", ConfigKeyValue::from_str("Native")),
            ("lineWidth", ConfigKeyValue::from_i32(0)),
            ("indentWidth", ConfigKeyValue::from_str("+3")),
        ],
        &global,
    );
    assert_eq!(
        resolved.config,
        Configuration {
            line_width: 0,
            indent_width: 3,
            line_ending: "Native".to_string(),
            roxygen_markdown: true,
        }
    );
    assert_eq!(resolved.diagnostics, Vec::new());
}

#[test]
fn use_tabs_changes_nothing() {
    for use_tabs in [None, Some(false), Some(true)] {
        let global = GlobalConfiguration {
            use_tabs,
            ..no_globals()
        };
        assert_eq!(resolve(vec![], &global), resolve(vec![], &no_globals()));
    }
}

#[test]
fn null_counts_as_unset() {
    let resolved = resolve(
        vec![
            ("lineWidth", ConfigKeyValue::Null),
            ("indentWidth", ConfigKeyValue::Null),
            ("lineEnding", ConfigKeyValue::Null),
            ("roxygenMarkdown", ConfigKeyValue::Null),
        ],
        &no_globals(),
    );
    assert_eq!(resolved, resolve(vec![], &no_globals()));
}

#[test]
fn values_of_the_wrong_type_are_reported_and_fall_back() {
    let number_problem = "-1".parse::<u32>().expect_err("negative").to_string();
    let word_problem = "wide".parse::<u32>().expect_err("a word").to_string();
    let resolved = resolve(
        vec![
            ("lineWidth", ConfigKeyValue::from_i32(-1)),
            ("indentWidth", ConfigKeyValue::from_str("wide")),
            ("lineEnding", ConfigKeyValue::Array(vec![])),
            ("roxygenMarkdown", ConfigKeyValue::from_str("yes")),
        ],
        &no_globals(),
    );
    assert_eq!(resolved.config, resolve(vec![], &no_globals()).config);
    assert_eq!(
        texts(&resolved.diagnostics),
        vec![
            ("lineWidth", number_problem.as_str()),
            ("indentWidth", word_problem.as_str()),
            (
                "lineEnding",
                "Arrays and objects are not supported for this value"
            ),
            (
                "roxygenMarkdown",
                "provided string was not `true` or `false`"
            ),
        ]
    );
}

#[test]
fn widths_are_read_as_decimal_numbers() {
    let width = |text: &str| {
        let resolved = resolve(
            vec![("lineWidth", ConfigKeyValue::from_str(text))],
            &no_globals(),
        );
        (resolved.config.line_width, resolved.diagnostics.len())
    };
    assert_eq!(width("007"), (7, 0));
    assert_eq!(width("+120"), (120, 0));
    assert_eq!(width("4294967295"), (u32::MAX, 0));
    assert_eq!(width("4294967296"), (80, 1));
    assert_eq!(width(""), (80, 1));
    assert_eq!(width("+"), (80, 1));
    assert_eq!(width("++1"), (80, 1));
    assert_eq!(width("-0"), (80, 1));
    assert_eq!(width(" 1"), (80, 1));
    assert_eq!(width("1_0"), (80, 1));
}

#[test]
fn scalars_of_another_type_are_read_by_their_text() {
    let resolved = resolve(
        vec![
            ("lineWidth", ConfigKeyValue::from_bool(true)),
            ("lineEnding", ConfigKeyValue::from_i32(-7)),
            ("roxygenMarkdown", ConfigKeyValue::from_str("true")),
            ("indentWidth", ConfigKeyValue::Object(ConfigKeyMap::new())),
        ],
        &no_globals(),
    );
    let bool_problem = "true".parse::<u32>().expect_err("a word").to_string();
    assert_eq!(resolved.config.line_width, 80);
    assert_eq!(resolved.config.indent_width, 2);
    assert_eq!(resolved.config.line_ending, "-7");
    assert!(resolved.config.roxygen_markdown);
    assert_eq!(
        texts(&resolved.diagnostics),
        vec![
            ("lineWidth", bool_problem.as_str()),
            (
                "indentWidth",
                "Arrays and objects are not supported for this value"
            ),
            (
                "lineEnding",
                "Unknown line ending '-7'. Expected one of: auto, lf, crlf, native."
            ),
        ]
    );
}

#[test]
fn unknown_keys_are_reported_last_and_in_order() {
    let resolved = resolve(
        vec![
            ("zebra", ConfigKeyValue::Null),
            ("lineWidth", ConfigKeyValue::from_i32(90)),
            ("apple", ConfigKeyValue::from_bool(true)),
            ("lineEnding", ConfigKeyValue::from_str("cr")),
            ("linewidth", ConfigKeyValue::from_i32(1)),
        ],
        &no_globals(),
    );
    assert_eq!(resolved.config.line_width, 90);
    assert_eq!(resolved.config.line_ending, "cr");
    assert_eq!(
        texts(&resolved.diagnostics),
        vec![
            (
                "lineEnding",
                "Unknown line ending 'cr'. Expected one of: auto, lf, crlf, native."
            ),
            ("zebra", "Unknown property in configuration"),
            ("apple", "Unknown property in configuration"),
            ("linewidth", "Unknown property in configuration"),
        ]
    );
}

#[test]
fn the_plugin_claims_r_files() {
    let matching = file_matching();
    assert_eq!(matching.file_extensions, vec!["R", "r"]);
    assert_eq!(matching.file_names, Vec::<String>::new());
    assert_eq!(resolve(vec![], &no_globals()).file_matching, matching);
}

#[test]
fn a_configuration_becomes_a_style() {
    let config = Configuration {
        line_width: u32::MAX,
        indent_width: 3,
        line_ending: "CRLF".to_string(),
        roxygen_markdown: true,
    };
    let style = build_style(&config);
    assert_eq!(style.line_width, u32::MAX as usize);
    assert_eq!(style.indent_width, 3);
    assert_eq!(style.line_ending, LineEnding::Crlf);
    assert!(build_parse_options(&config).roxygen_markdown_default);
    let misspelled = Configuration {
        line_ending: "cr".to_string(),
        roxygen_markdown: false,
        ..config
    };
    assert_eq!(build_style(&misspelled).line_ending, LineEnding::Auto);
    assert!(!build_parse_options(&misspelled).roxygen_markdown_default);
}

#[test]
fn the_plugin_describes_itself() {
    let info = ArityHandler::new().plugin_info("dprint-plugin-arity", "1.2.3");
    assert_eq!(info.name, "dprint-plugin-arity");
    assert_eq!(info.version, "1.2.3");
    assert_eq!(info.config_key, "arity");
    assert_eq!(info.help_url, "https://arity.cc");
    assert_eq!(
        info.config_schema_url,
        "https://github.com/jolars/dprint-plugin-arity/releases/download/v1.2.3/schema.json"
    );
    assert_eq!(
        info.update_url.as_deref(),
        Some("https://plugins.dprint.dev/jolars/arity/latest.json")
    );
}

#[test]
fn no_configuration_needs_an_update() {
    let changes = ArityHandler::new()
        .check_config_updates(CheckConfigUpdatesMessage {
            old_version: None,
            config: ConfigKeyMap::new(),
        })
        .expect("there is nothing to fail");
    assert!(changes.is_empty());
}
