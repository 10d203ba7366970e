use checkmate::json::{parse_json, Json};
use checkmate::plugins::eslint::EslintPlugin;
use checkmate::plugins::phpcs::PhpcsPlugin;
use checkmate::plugins::phpstan::PhpstanPlugin;
use checkmate::plugins::stylelint::StylelintPlugin;
use checkmate::plugins::{
    complaint, conclude, gather, local_candidate, probe, read_column, read_int, read_keyed,
    read_line, read_listed, read_messages, read_text, Defaults, DiscoveryError, Groups, LogLevel, Plugin,
    PluginLineOutput, PluginOutput, PluginSetting, Position, Probe, ProbeStep, ReportEntry,
    ReportOutcome, Severity, SpawnOutcome, ToolOutput,
};

fn strings(items: &[&str]) -> Vec<String> {
    items.iter().map(|s| s.to_string()).collect()
}

fn setting(cmd: &str, args: &[&str], filetypes: &[&str]) -> PluginSetting {
    PluginSetting { cmd: cmd.to_string(), args: strings(args), filetypes: strings(filetypes) }
}

fn json(text: &str) -> Json {
    parse_json(text.as_bytes()).unwrap()
}

fn output(stdout: &str, stderr: &str) -> ToolOutput {
    ToolOutput { stdout: stdout.as_bytes().to_vec(), stderr: stderr.as_bytes().to_vec() }
}

fn finding(line: u32, column: u32, line_end: u32, column_end: u32, severity: Severity, text: &str) -> PluginLineOutput {
    PluginLineOutput {
        position: Position { line, column, line_end, column_end },
        text: text.to_string(),
        severity,
    }
}

fn findings(outcome: ReportOutcome) -> Vec<PluginLineOutput> {
    match outcome {
        ReportOutcome::Diagnostics(found) => found.messages,
        other => panic!("no report was read: {:?}", other),
    }
}

#[test]
fn default_setting_names_nothing() {
    assert_eq!(PluginSetting::default(), setting("", &[], &[]));
    assert_eq!(PluginOutput::default(), PluginOutput { messages: vec![] });
}

#[test]
fn duplicate_copies_a_setting() {
    let s = setting("eslint", &["-f=json", "--x"], &["js"]);
    assert_eq!(s.duplicate(), s);
}

#[test]
fn merge_appends_the_wished_arguments() {
    let found = setting("eslint", &["-f=json"], &["js", "tsx"]);
    let wished = setting("", &["--foo"], &[]);
    let merged = PluginSetting::merge(&found, &wished);
    assert_eq!(merged.args, strings(&["-f=json", "--foo"]));
    assert_eq!(merged.cmd, "eslint");
    assert_eq!(merged.filetypes, strings(&["js", "tsx"]));
}

#[test]
fn merge_replaces_the_file_types() {
    let found = setting("eslint", &["-f=json"], &["js", "tsx"]);
    let wished = setting("", &[], &["ts"]);
    let merged = PluginSetting::merge(&found, &wished);
    assert_eq!(merged.filetypes, strings(&["ts"]));
    assert_eq!(merged.args, strings(&["-f=json"]));
    assert_eq!(merged.cmd, "eslint");
}

#[test]
fn merge_replaces_the_command() {
    let found = setting("/p/vendor/bin/phpcs", &["--report=json"], &["php"]);
    let wished = setting("/opt/phpcs", &["-q", "-n"], &["php", "inc"]);
    let merged = PluginSetting::merge(&found, &wished);
    assert_eq!(merged, setting("/opt/phpcs", &["--report=json", "-q", "-n"], &["php", "inc"]));
}

#[test]
fn merge_without_wishes_keeps_what_was_found() {
    let found = setting("phpstan", &["analyse", "--error-format=json"], &["php"]);
    assert_eq!(PluginSetting::merge(&found, &PluginSetting::default()), found);
}

#[test]
fn adapters_have_their_identifiers() {
    assert_eq!(PhpcsPlugin.get_plugin_id(), "phpcs");
    assert_eq!(PhpstanPlugin.get_plugin_id(), "phpstan");
    assert_eq!(EslintPlugin.get_plugin_id(), "eslint");
    assert_eq!(StylelintPlugin.get_plugin_id(), "stylelint");
}

#[test]
fn adapters_have_their_defaults() {
    assert_eq!(
        EslintPlugin.default_settings(),
        Defaults {
            local_bin: "/node_modules/.bin/eslint".to_string(),
            global_cmd: None,
            args: strings(&["-f=json"]),
            filetypes: strings(&["js", "tsx", "vue", "svelte"]),
        }
    );
    assert_eq!(
        StylelintPlugin.default_settings(),
        Defaults {
            local_bin: "/node_modules/.bin/stylelint".to_string(),
            global_cmd: Some("stylelint".to_string()),
            args: strings(&["-f=json"]),
            filetypes: strings(&["css", "less", "sass"]),
        }
    );
    assert_eq!(
        PhpcsPlugin.default_settings(),
        Defaults {
            local_bin: "/vendor/bin/phpcs".to_string(),
            global_cmd: Some("phpcs".to_string()),
            args: strings(&["--report=json"]),
            filetypes: strings(&["php"]),
        }
    );
    assert_eq!(
        PhpstanPlugin.default_settings(),
        Defaults {
            local_bin: "/vendor/bin/phpstan".to_string(),
            global_cmd: Some("phpstan".to_string()),
            args: strings(&["analyse", "--error-format=json"]),
            filetypes: strings(&["php"]),
        }
    );
}

#[test]
fn discovery_looks_at_the_project_first() {
    assert_eq!(
        PhpcsPlugin.is_installed("/home/me/shop", Probe::Start),
        ProbeStep::CheckPath("/home/me/shop/vendor/bin/phpcs".to_string())
    );
    assert_eq!(
        PhpstanPlugin.is_installed("/home/me/shop", Probe::Start),
        ProbeStep::CheckPath("/home/me/shop/vendor/bin/phpstan".to_string())
    );
    assert_eq!(
        EslintPlugin.is_installed("/home/me/site", Probe::Start),
        ProbeStep::CheckPath("/home/me/site/node_modules/.bin/eslint".to_string())
    );
    assert_eq!(
        StylelintPlugin.is_installed("/home/me/my site", Probe::Start),
        ProbeStep::CheckPath("/home/me/my site/node_modules/.bin/stylelint".to_string())
    );
}

#[test]
fn discovery_uses_the_project_copy() {
    assert_eq!(
        PhpcsPlugin.is_installed("/p", Probe::Local(true)),
        ProbeStep::Installed(setting("/p/vendor/bin/phpcs", &["--report=json"], &["php"]))
    );
    assert_eq!(
        EslintPlugin.is_installed("/p", Probe::Local(true)),
        ProbeStep::Installed(setting(
            "/p/node_modules/.bin/eslint",
            &["-f=json"],
            &["js", "tsx", "vue", "svelte"]
        ))
    );
}

#[test]
fn discovery_tries_the_bare_name_without_a_project_copy() {
    assert_eq!(
        PhpcsPlugin.is_installed("/p", Probe::Local(false)),
        ProbeStep::TrySpawn("phpcs".to_string())
    );
    assert_eq!(
        PhpstanPlugin.is_installed("/p", Probe::Local(false)),
        ProbeStep::TrySpawn("phpstan".to_string())
    );
    assert_eq!(
        PhpstanPlugin.is_installed("/p", Probe::Global(SpawnOutcome::Started)),
        ProbeStep::Installed(setting("phpstan", &["analyse", "--error-format=json"], &["php"]))
    );
}

#[test]
fn discovery_tells_missing_from_broken() {
    let missing = PhpcsPlugin.is_installed("/p", Probe::Global(SpawnOutcome::NotFound));
    let broken = PhpcsPlugin.is_installed("/p", Probe::Global(SpawnOutcome::Failed));
    assert_eq!(missing, ProbeStep::Unavailable(DiscoveryError::NotFound));
    assert_eq!(broken, ProbeStep::Unavailable(DiscoveryError::CannotStart));
    assert_eq!(DiscoveryError::NotFound.log_level(), LogLevel::Info);
    assert_eq!(DiscoveryError::CannotStart.log_level(), LogLevel::Error);
}

#[test]
fn eslint_without_a_project_copy_is_not_found() {
    assert_eq!(
        EslintPlugin.is_installed("/p", Probe::Local(false)),
        ProbeStep::Unavailable(DiscoveryError::NotFound)
    );
    assert_eq!(
        EslintPlugin.is_installed("/p", Probe::Global(SpawnOutcome::Started)),
        ProbeStep::Unavailable(DiscoveryError::NotFound)
    );
}

#[test]
fn stylelint_without_a_project_copy_is_tried_under_its_bare_name() {
    assert_eq!(
        StylelintPlugin.is_installed("/p", Probe::Local(true)),
        ProbeStep::Installed(setting(
            "/p/node_modules/.bin/stylelint",
            &["-f=json"],
            &["css", "less", "sass"]
        ))
    );
    assert_eq!(
        StylelintPlugin.is_installed("/p", Probe::Local(false)),
        ProbeStep::TrySpawn("stylelint".to_string())
    );
    assert_eq!(
        StylelintPlugin.is_installed("/p", Probe::Global(SpawnOutcome::Started)),
        ProbeStep::Installed(setting("stylelint", &["-f=json"], &["css", "less", "sass"]))
    );
    assert_eq!(
        StylelintPlugin.is_installed("/p", Probe::Global(SpawnOutcome::NotFound)),
        ProbeStep::Unavailable(DiscoveryError::NotFound)
    );
    assert_eq!(
        StylelintPlugin.is_installed("/p", Probe::Global(SpawnOutcome::Failed)),
        ProbeStep::Unavailable(DiscoveryError::CannotStart)
    );
}

#[test]
fn probe_goes_by_the_defaults_it_is_given() {
    let d = Defaults {
        local_bin: "/bin/tool".to_string(),
        global_cmd: Some("tool".to_string()),
        args: strings(&["-x"]),
        filetypes: strings(&["t"]),
    };
    assert_eq!(local_candidate(&d, "/r"), "/r/bin/tool");
    assert_eq!(probe(&d, "/r", Probe::Start), ProbeStep::CheckPath("/r/bin/tool".to_string()));
    assert_eq!(
        probe(&d, "/r", Probe::Global(SpawnOutcome::Started)),
        ProbeStep::Installed(setting("tool", &["-x"], &["t"]))
    );
}

#[test]
fn field_readers_read_what_is_there() {
    let m = json(r#"{"line": 5, "column": 0, "text": "t", "big": 4294967296, "neg": -1, "half": 0.5, "max": 4294967295}"#);
    assert_eq!(read_int(&m, "line"), Some(5));
    assert_eq!(read_int(&m, "big"), Some(4294967296));
    assert_eq!(read_int(&m, "half"), None);
    assert_eq!(read_int(&m, "text"), None);
    assert_eq!(read_int(&m, "none"), None);
    assert_eq!(read_text(&m, "text"), Some("t".to_string()));
    assert_eq!(read_text(&m, "line"), None);
    assert_eq!(read_line(&m, "line"), Some(4));
    assert_eq!(read_line(&m, "column"), None);
    assert_eq!(read_line(&m, "max"), Some(4294967294));
    assert_eq!(read_line(&m, "big"), None);
    assert_eq!(read_line(&m, "neg"), None);
    assert_eq!(read_column(&m, "column"), Some(0));
    assert_eq!(read_column(&m, "line"), Some(5));
    assert_eq!(read_column(&m, "max"), Some(4294967295));
    assert_eq!(read_column(&m, "big"), None);
    assert_eq!(read_column(&m, "neg"), None);
    assert_eq!(read_column(&m, "half"), None);
}

#[test]
fn eslint_line_counts_from_one_and_column_from_zero() {
    let report = json(r#"[{"filePath": "/p/a.js", "messages": [{"severity": 2, "line": 5, "column": 7, "message": "no-undef"}]}]"#);
    assert_eq!(
        EslintPlugin.normalize(&report),
        Some(PluginOutput { messages: vec![finding(4, 7, 4, 7, Severity::Error, "no-undef")] })
    );
}

#[test]
fn eslint_levels_map_to_severities() {
    let entry = |level: &str| {
        let m = json(&format!(r#"{{"severity": {}, "line": 1, "column": 0, "message": "m"}}"#, level));
        EslintPlugin.read_message(&m).map(|d| d.severity)
    };
    assert_eq!(entry("1"), Some(Severity::Warning));
    assert_eq!(entry("2"), Some(Severity::Error));
    assert_eq!(entry("0"), Some(Severity::Info));
    assert_eq!(entry("3"), Some(Severity::Info));
    assert_eq!(entry("-1"), Some(Severity::Info));
    assert_eq!(entry("\"2\""), None);
    assert_eq!(entry("2.0"), None);
}

#[test]
fn eslint_reads_every_file_in_order() {
    let report = json(
        r#"[
        {"filePath": "a.js", "messages": [
            {"ruleId": "semi", "severity": 1, "line": 1, "column": 10, "message": "first", "nodeType": null},
            {"ruleId": null, "fatal": true, "severity": 2, "line": 3, "column": 1, "message": "second"}]},
        {"filePath": "b.js", "messages": [], "errorCount": 0},
        {"filePath": "c.js", "messages": [{"severity": 9, "line": 2, "column": 0, "message": "third"}]}
        ]"#,
    );
    assert_eq!(
        EslintPlugin.normalize(&report),
        Some(PluginOutput {
            messages: vec![
                finding(0, 10, 0, 10, Severity::Warning, "first"),
                finding(2, 1, 2, 1, Severity::Error, "second"),
                finding(1, 0, 1, 0, Severity::Info, "third"),
            ]
        })
    );
}

#[test]
fn eslint_refuses_a_report_of_another_shape() {
    let refused = [
        r#"{"filePath": "a.js", "messages": []}"#,
        r#"[{"messages": []}]"#,
        r#"[{"filePath": 1, "messages": []}]"#,
        r#"[{"filePath": "a.js"}]"#,
        r#"[{"filePath": "a.js", "messages": {}}]"#,
        r#"[{"filePath": "a.js", "messages": [{"severity": 1, "line": 1, "column": 1}]}]"#,
        r#"[{"filePath": "a.js", "messages": [{"severity": 1, "line": 0, "column": 1, "message": "m"}]}]"#,
        r#"[{"filePath": "a.js", "messages": [{"severity": 1, "line": 1, "column": -1, "message": "m"}]}]"#,
        r#"[{"filePath": "a.js", "messages": [{"severity": 1, "line": 1.5, "column": 1, "message": "m"}]}]"#,
        r#"[{"filePath": "a.js", "messages": [{"severity": 1, "line": 1, "column": 1, "message": "m"}, 3]}]"#,
        r#"[{"filePath": "a.js", "messages": []}, null]"#,
        r#"null"#,
    ];
    for text in refused {
        assert_eq!(EslintPlugin.normalize(&json(text)), None, "{}", text);
    }
    assert_eq!(EslintPlugin.normalize(&json("[]")), Some(PluginOutput { messages: vec![] }));
}

#[test]
fn phpcs_reads_the_report_of_a_file() {
    let stdout = r#"{"files":{"a.php":{"messages":[{"message":"X","line":3,"column":2,"type":"ERROR"}]}}}"#;
    assert_eq!(
        findings(PhpcsPlugin.run(&output(stdout, ""))),
        vec![finding(2, 2, 2, 2, Severity::Error, "X")]
    );
}

#[test]
fn phpcs_kinds_map_to_severities() {
    let entry = |kind: &str| {
        let m = json(&format!(r#"{{"message": "m", "line": 1, "column": 1, "type": {}}}"#, kind));
        PhpcsPlugin.read_message(&m).map(|d| d.severity)
    };
    assert_eq!(entry("\"WARNING\""), Some(Severity::Warning));
    assert_eq!(entry("\"ERROR\""), Some(Severity::Error));
    assert_eq!(entry("\"error\""), Some(Severity::Info));
    assert_eq!(entry("\"NOTICE\""), Some(Severity::Info));
    assert_eq!(entry("\"\""), Some(Severity::Info));
    assert_eq!(entry("5"), None);
}

#[test]
fn phpcs_column_is_taken_as_it_is() {
    let report = json(
        r#"{"totals": {"errors": 1}, "files": {
            "/p/a.php": {"errors": 1, "warnings": 1, "messages": [
                {"message": "A", "source": "s", "severity": 5, "fixable": false, "type": "WARNING", "line": 1, "column": 1},
                {"message": "B", "type": "ERROR", "line": 12, "column": 0}]}}}"#,
    );
    assert_eq!(
        PhpcsPlugin.normalize(&report),
        Some(PluginOutput {
            messages: vec![
                finding(0, 1, 0, 1, Severity::Warning, "A"),
                finding(11, 0, 11, 0, Severity::Error, "B"),
            ]
        })
    );
}

#[test]
fn phpcs_refuses_a_report_of_another_shape() {
    let refused = [
        r#"[]"#,
        r#"{}"#,
        r#"{"files": []}"#,
        r#"{"files": {"a.php": {}}}"#,
        r#"{"files": {"a.php": {"messages": null}}}"#,
        r#"{"files": {"a.php": {"messages": [{"message": "X", "line": 3, "type": "ERROR"}]}}}"#,
        r#"{"files": {"a.php": {"messages": [{"message": "X", "line": 3, "column": 2}]}}}"#,
        r#"{"files": {"a.php": {"messages": [{"message": "X", "line": 0, "column": 2, "type": "ERROR"}]}}}"#,
        r#"{"files": {"a.php": {"messages": []}, "b.php": 1}}"#,
    ];
    for text in refused {
        assert_eq!(PhpcsPlugin.normalize(&json(text)), None, "{}", text);
    }
    assert_eq!(
        PhpcsPlugin.normalize(&json(r#"{"files": {}}"#)),
        Some(PluginOutput { messages: vec![] })
    );
}

#[test]
fn phpstan_line_counts_from_one_in_a_fixed_column() {
    let report = json(r#"{"totals": {}, "files": {"/p/a.php": {"errors": 1, "messages": [{"message": "Undefined variable", "line": 10, "ignorable": true}]}}, "errors": []}"#);
    assert_eq!(
        PhpstanPlugin.normalize(&report),
        Some(PluginOutput {
            messages: vec![finding(9, 1, 9, 1, Severity::Error, "Undefined variable")]
        })
    );
}

#[test]
fn phpstan_refuses_an_entry_without_a_line() {
    assert_eq!(
        PhpstanPlugin.normalize(&json(r#"{"files": {"a.php": {"messages": [{"message": "m"}]}}}"#)),
        None
    );
    assert_eq!(
        PhpstanPlugin.normalize(&json(r#"{"files": {"a.php": {"messages": [{"message": "m", "line": null}]}}}"#)),
        None
    );
    assert_eq!(PhpstanPlugin.read_message(&json(r#"{"line": 1}"#)), None);
}

#[test]
fn stylelint_keeps_both_ends() {
    let report = json(
        r#"[{"source": "/p/a.css", "deprecations": [], "errored": true, "warnings": [
            {"line": 3, "column": 5, "endLine": 4, "endColumn": 9, "rule": "r", "severity": "error", "text": "bad"},
            {"line": 7, "column": 1, "endLine": 7, "endColumn": 2, "rule": "q", "severity": "warning", "text": "odd"},
            {"line": 8, "column": 1, "endLine": 9, "endColumn": 1, "severity": "hint", "text": "hm"}]}]"#,
    );
    assert_eq!(
        StylelintPlugin.normalize(&report),
        Some(PluginOutput {
            messages: vec![
                finding(2, 5, 3, 9, Severity::Error, "bad"),
                finding(6, 1, 6, 2, Severity::Warning, "odd"),
                finding(7, 1, 8, 1, Severity::Info, "hm"),
            ]
        })
    );
}

#[test]
fn stylelint_refuses_an_entry_without_an_end() {
    let refused = [
        r#"[{"warnings": [{"line": 3, "column": 5, "severity": "error", "text": "bad"}]}]"#,
        r#"[{"warnings": [{"line": 3, "column": 5, "endLine": 0, "endColumn": 1, "severity": "error", "text": "bad"}]}]"#,
        r#"[{"warnings": [{"line": 3, "column": 5, "endLine": 3, "endColumn": 6, "severity": 2, "text": "bad"}]}]"#,
        r#"[{"messages": []}]"#,
        r#"{"warnings": []}"#,
    ];
    for text in refused {
        assert_eq!(StylelintPlugin.normalize(&json(text)), None, "{}", text);
    }
}

#[test]
fn malformed_output_gives_a_parse_failure() {
    let out = output("PHP Fatal error: something", "");
    assert_eq!(PhpcsPlugin.run(&out), ReportOutcome::ParseFailure);
    assert_eq!(PhpstanPlugin.run(&out), ReportOutcome::ParseFailure);
    assert_eq!(EslintPlugin.run(&out), ReportOutcome::ParseFailure);
    assert_eq!(StylelintPlugin.run(&out), ReportOutcome::ParseFailure);
    assert_eq!(EslintPlugin.run(&output("", "")), ReportOutcome::ParseFailure);
    assert_eq!(EslintPlugin.run(&output("[{\"filePath\":", "")), ReportOutcome::ParseFailure);
    assert_eq!(PhpcsPlugin.run(&out).into_messages(), vec![]);
}

#[test]
fn valid_json_of_another_shape_gives_a_parse_failure() {
    assert_eq!(EslintPlugin.run(&output("{}", "")), ReportOutcome::ParseFailure);
    assert_eq!(StylelintPlugin.run(&output("{}", "")), ReportOutcome::ParseFailure);
    assert_eq!(PhpcsPlugin.run(&output("[]", "")), ReportOutcome::ParseFailure);
    assert_eq!(PhpstanPlugin.run(&output("[]", "")), ReportOutcome::ParseFailure);
}

#[test]
fn a_complaint_outweighs_the_report() {
    let stdout = r#"{"files":{"a.php":{"messages":[{"message":"X","line":3,"column":2,"type":"ERROR"}]}}}"#;
    let outcome = PhpcsPlugin.run(&output(stdout, "Deprecated: something"));
    assert_eq!(outcome, ReportOutcome::ToolError(b"Deprecated: something".to_vec()));
    assert_eq!(outcome.into_messages(), vec![]);
    assert_eq!(
        PhpstanPlugin.run(&output(stdout, "x")),
        ReportOutcome::ToolError(b"x".to_vec())
    );
    assert_eq!(EslintPlugin.run(&output("[]", " ")), ReportOutcome::ToolError(b" ".to_vec()));
    assert_eq!(
        StylelintPlugin.run(&output("[]", "\n")),
        ReportOutcome::ToolError(b"\n".to_vec())
    );
}

#[test]
fn a_run_without_findings_is_no_failure() {
    assert_eq!(
        EslintPlugin.run(&output("[]", "")),
        ReportOutcome::Diagnostics(PluginOutput { messages: vec![] })
    );
    assert_eq!(
        StylelintPlugin.run(&output(" [ ] ", "")),
        ReportOutcome::Diagnostics(PluginOutput { messages: vec![] })
    );
}

#[test]
fn complaint_and_conclude_make_the_outcome() {
    assert_eq!(complaint(&output("x", "")), None);
    assert_eq!(complaint(&output("x", "e")), Some(ReportOutcome::ToolError(b"e".to_vec())));
    assert_eq!(conclude(None), ReportOutcome::ParseFailure);
    let found = PluginOutput { messages: vec![finding(1, 2, 3, 4, Severity::Info, "i")] };
    assert_eq!(conclude(Some(found.clone())), ReportOutcome::Diagnostics(found.clone()));
    assert_eq!(ReportOutcome::Diagnostics(found.clone()).into_messages(), found.messages);
}

#[test]
fn read_messages_reads_the_list_under_a_key() {
    let group = json(r#"{"messages": [{"message": "m", "line": 2}, {"message": "n", "line": 3}]}"#);
    assert_eq!(
        read_messages(&PhpstanPlugin, &group, "messages"),
        Some(vec![
            finding(1, 1, 1, 1, Severity::Error, "m"),
            finding(2, 1, 2, 1, Severity::Error, "n"),
        ])
    );
    assert_eq!(read_messages(&PhpstanPlugin, &json(r#"{"messages": []}"#), "messages"), Some(vec![]));
    assert_eq!(read_messages(&PhpstanPlugin, &group, "warnings"), None);
    assert_eq!(read_messages(&PhpstanPlugin, &json("[]"), "messages"), None);
    assert_eq!(read_messages(&PhpstanPlugin, &json(r#"{"messages": 1}"#), "messages"), None);
    assert_eq!(read_messages(&PhpcsPlugin, &group, "messages"), None);
}

#[test]
fn read_listed_and_read_keyed_walk_the_two_shapes() {
    let listed = json(r#"[{"list": [{"message": "a", "line": 1}]}, {"list": [{"message": "b", "line": 2}]}]"#);
    assert_eq!(
        read_listed(&PhpstanPlugin, &listed, "list"),
        Some(PluginOutput {
            messages: vec![
                finding(0, 1, 0, 1, Severity::Error, "a"),
                finding(1, 1, 1, 1, Severity::Error, "b"),
            ]
        })
    );
    assert_eq!(read_keyed(&PhpstanPlugin, &listed, "list"), None);
    let keyed = Json::Object(vec![(
        "files".to_string(),
        Json::Object(vec![
            ("z.php".to_string(), json(r#"{"list": [{"message": "z", "line": 1}]}"#)),
            ("a.php".to_string(), json(r#"{"list": [{"message": "a", "line": 2}]}"#)),
        ]),
    )]);
    assert_eq!(
        read_keyed(&PhpstanPlugin, &keyed, "list"),
        Some(PluginOutput {
            messages: vec![
                finding(0, 1, 0, 1, Severity::Error, "z"),
                finding(1, 1, 1, 1, Severity::Error, "a"),
            ]
        })
    );
    assert_eq!(read_listed(&PhpstanPlugin, &keyed, "list"), None);
}

#[test]
fn gather_reads_the_files_in_either_form() {
    let items = vec![
        json(r#"{"list": [{"message": "a", "line": 1}]}"#),
        json(r#"{"list": []}"#),
        json(r#"{"list": [{"message": "b", "line": 2}]}"#),
    ];
    let expected = PluginOutput {
        messages: vec![
            finding(0, 1, 0, 1, Severity::Error, "a"),
            finding(1, 1, 1, 1, Severity::Error, "b"),
        ],
    };
    assert_eq!(Groups::Listed(&items).len(), 3);
    assert_eq!(Groups::Listed(&items).get(2), Some(&items[2]));
    assert_eq!(Groups::Listed(&items).get(3), None);
    assert_eq!(gather(&PhpstanPlugin, Groups::Listed(&items), "list"), Some(expected.clone()));
    assert_eq!(gather(&PhpstanPlugin, Groups::Listed(&items), "other"), None);
    let members: Vec<(String, Json)> =
        items.into_iter().enumerate().map(|(i, j)| (format!("{}.php", i), j)).collect();
    assert_eq!(Groups::Keyed(&members).len(), 3);
    assert_eq!(Groups::Keyed(&members).get(0), Some(&members[0].1));
    assert_eq!(gather(&PhpstanPlugin, Groups::Keyed(&members), "list"), Some(expected));
    assert_eq!(
        gather(&PhpstanPlugin, Groups::Listed(&vec![]), "list"),
        Some(PluginOutput { messages: vec![] })
    );
}
