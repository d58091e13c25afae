use fopener::cli::{
    active_rules, find_rule, first_opener, first_opener_with, format_event, rule_test_lines,
    test_candidate, test_rule_report, validation_report, watch_rules,
};
use fopener::config::AppConfig;
use fopener::types::{AppEvent, FileCandidate, WatchRule};

fn rule(id: &str, name: &str, mask: &str, enabled: bool) -> WatchRule {
    let mut r = WatchRule::new_default(name);
    r.id = id.to_owned();
    r.path = "/watch".to_owned();
    r.file_mask = mask.to_owned();
    r.enabled = enabled;
    r
}

#[test]
fn event_lines() {
    let cases = vec![
        (AppEvent::RuleStarted { rule_id: "r".into() }, "[INFO] Rule started: r"),
        (AppEvent::RuleStopped { rule_id: "r".into() }, "[INFO] Rule stopped: r"),
        (AppEvent::FileDetected { rule_id: "r".into(), path: "/p".into() }, "[INFO] [r] Detected: /p"),
        (
            AppEvent::FileIgnored { rule_id: "r".into(), path: "/p".into(), reason: "why".into() },
            "[DEBUG] [r] Ignored /p: why",
        ),
        (AppEvent::FileMatched { rule_id: "r".into(), path: "/p".into() }, "[INFO] [r] Matched: /p"),
        (AppEvent::FileReady { rule_id: "r".into(), path: "/p".into() }, "[INFO] [r] File is ready: /p"),
        (
            AppEvent::ActionStarted { rule_id: "r".into(), executable: "ed".into(), arguments: vec![] },
            "[INFO] [r] Launching: ed",
        ),
        (AppEvent::ActionCompleted { rule_id: "r".into(), path: "/p".into() }, "[INFO] [r] Opened: /p"),
        (
            AppEvent::ActionFailed { rule_id: "r".into(), path: "/p".into(), error: "e".into() },
            "[ERROR] [r] Failed to open /p: e",
        ),
        (AppEvent::Warning { message: "w".into() }, "[WARN] w"),
        (AppEvent::Error { message: "x".into() }, "[ERROR] x"),
    ];
    for (e, line) in cases {
        assert_eq!(format_event(&e), line);
    }
}

#[test]
fn only_enabled_rules_are_watched() {
    let rules = vec![rule("a", "A", "*", true), rule("b", "B", "*", false), rule("c", "C", "*", true)];
    let ids: Vec<String> = active_rules(rules).into_iter().map(|r| r.id).collect();
    assert_eq!(ids, vec!["a", "c"]);
}

#[test]
fn rules_found_by_id_or_name() {
    let config = AppConfig {
        version: 1,
        rules: vec![rule("a", "Alpha", "*", true), rule("b", "a", "*", true)],
    };
    assert_eq!(find_rule(&config, "a"), Some(0));
    assert_eq!(find_rule(&config, "Alpha"), Some(0));
    assert_eq!(find_rule(&config, "b"), Some(1));
    assert_eq!(find_rule(&config, "zzz"), None);
}

#[test]
fn test_path_joins_bare_names() {
    let r = rule("a", "A", "*.xml", true);
    let c = test_candidate(&r, "export.xml");
    assert_eq!(c.path, "/watch/export.xml");
    assert_eq!(c.file_name, "export.xml");
    let c = test_candidate(&r, "/elsewhere/export.xml");
    assert_eq!(c.path, "/elsewhere/export.xml");
    assert_eq!(c.file_name, "export.xml");
}

#[test]
fn test_rule_reports() {
    let mut with_regex = rule("x", "Exports", "*.xml", true);
    with_regex.regex = Some("^export_".to_owned());
    let config = AppConfig { version: 1, rules: vec![with_regex] };
    let report = test_rule_report(&config, "Exports", "export_1.xml");
    assert!(report.success);
    assert_eq!(
        report.out,
        vec![
            "Rule: Exports",
            "File: export_1.xml",
            "",
            "Wildcard: matched",
            "Regex: matched",
            "Default ignore patterns: passed",
            "",
            "Decision: matched",
        ]
    );
    let report = test_rule_report(&config, "x", "invoice.xml");
    assert!(report.success);
    assert_eq!(report.out[3], "Decision: ignored \u{2014} regex not matched");
    let report = test_rule_report(&config, "nope", "a.xml");
    assert!(!report.success);
    assert!(report.out.is_empty());
    assert_eq!(report.err, vec!["Rule not found: nope"]);
}

#[test]
fn test_rule_with_bad_mask() {
    let bad = rule("x", "Bad", "a[", true);
    let report = rule_test_lines(&bad, "a.xml", false);
    assert!(!report.success);
    assert_eq!(report.out, vec!["Rule: Bad", "File: a.xml", ""]);
    assert_eq!(report.err.len(), 1);
    assert!(report.err[0].starts_with("Invalid rule: Invalid glob pattern: "));
}

#[test]
fn open_once_takes_first_enabled_match() {
    let rules = vec![
        rule("a", "A", "*.xml", false),
        rule("b", "B", "*.csv", true),
        rule("c", "C", "*.xml", true),
        rule("d", "D", "*", true),
    ];
    let c = FileCandidate { path: "/watch/x.xml".into(), file_name: "x.xml".into(), size: None };
    assert_eq!(first_opener_with(&rules, &c, false), Some(2));
    assert_eq!(first_opener_with(&rules, &c, true), None);
    assert_eq!(first_opener(&rules, &c), Some(2));
    let far = FileCandidate { path: "/far/x.xml".into(), file_name: "x.xml".into(), size: None };
    assert_eq!(first_opener(&rules, &far), None);
}

#[test]
fn validation_output() {
    let ok = validation_report(&vec![]);
    assert!(ok.success);
    assert_eq!(ok.out, vec!["Config is valid."]);
    assert!(ok.err.is_empty());
    let bad = validation_report(&vec!["one".to_owned(), "two".to_owned()]);
    assert!(!bad.success);
    assert!(bad.out.is_empty());
    assert_eq!(bad.err, vec!["Error: one", "Error: two"]);
}

#[test]
fn watch_needs_an_enabled_rule() {
    let rules = vec![rule("a", "A", "*", false), rule("b", "B", "*", true), rule("c", "C", "*", true)];
    let ids: Vec<String> = watch_rules(rules).unwrap().into_iter().map(|r| r.id).collect();
    assert_eq!(ids, vec!["b", "c"]);
    assert_eq!(
        watch_rules(vec![rule("a", "A", "*", false)]).unwrap_err(),
        "No enabled rules found in config."
    );
    assert_eq!(watch_rules(Vec::new()).unwrap_err(), "No enabled rules found in config.");
}
