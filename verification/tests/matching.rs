use std::path::PathBuf;

use fopener::error::CoreError;
use fopener::matching::{default_ignore_pattern_list, validate_glob, validate_regex, RuleMatcher};
use fopener::types::{ActionTemplate, FileCandidate, IgnoreReason, MatchDecision, WatchRule};

fn make_rule(mask: &str, regex: Option<&str>, path: &str) -> WatchRule {
    WatchRule {
        id: "test".to_owned(),
        name: "Test".to_owned(),
        enabled: true,
        path: path.to_owned(),
        include_subdirectories: false,
        file_mask: mask.to_owned(),
        regex: regex.map(str::to_owned),
        action: ActionTemplate {
            executable: "notepad.exe".to_owned(),
            arguments: vec!["{file}".to_owned()],
        },
        debounce_ms: 1000,
        wait_until_stable: true,
        stable_check_ms: 300,
        stable_checks_count: 3,
        ready_timeout_sec: 30,
    }
}

fn make_candidate(folder: &str, filename: &str) -> FileCandidate {
    let path = PathBuf::from(folder).join(filename);
    FileCandidate {
        path: path.to_string_lossy().into_owned(),
        file_name: filename.to_owned(),
        size: Some(1024),
    }
}

#[test]
fn test_glob_match() {
    let rule = make_rule("*.xml", None, "/watch");
    let matcher = RuleMatcher::new(&rule).unwrap();
    let candidate = make_candidate("/watch", "export_123.xml");
    assert!(matches!(matcher.decide(&rule, &candidate), MatchDecision::Matched));
}

#[test]
fn test_glob_no_match() {
    let rule = make_rule("*.xml", None, "/watch");
    let matcher = RuleMatcher::new(&rule).unwrap();
    let candidate = make_candidate("/watch", "export_123.csv");
    assert!(matches!(
        matcher.decide(&rule, &candidate),
        MatchDecision::Ignored { reason: IgnoreReason::MaskNotMatched }
    ));
}

#[test]
fn test_regex_match() {
    let rule = make_rule("*.xml", Some("^export_.*\\.xml$"), "/watch");
    let matcher = RuleMatcher::new(&rule).unwrap();
    let candidate = make_candidate("/watch", "export_123.xml");
    assert!(matches!(matcher.decide(&rule, &candidate), MatchDecision::Matched));
}

#[test]
fn test_regex_no_match() {
    let rule = make_rule("*.xml", Some("^export_.*\\.xml$"), "/watch");
    let matcher = RuleMatcher::new(&rule).unwrap();
    let candidate = make_candidate("/watch", "invoice_123.xml");
    assert!(matches!(
        matcher.decide(&rule, &candidate),
        MatchDecision::Ignored { reason: IgnoreReason::RegexNotMatched }
    ));
}

#[test]
fn test_ignore_tmp() {
    let rule = make_rule("*", None, "/watch");
    let matcher = RuleMatcher::new(&rule).unwrap();
    let candidate = make_candidate("/watch", "file.tmp");
    assert!(matches!(matcher.decide(&rule, &candidate), MatchDecision::Ignored { .. }));
}

#[test]
fn test_ignore_crdownload() {
    let rule = make_rule("*", None, "/watch");
    let matcher = RuleMatcher::new(&rule).unwrap();
    let candidate = make_candidate("/watch", "file.crdownload");
    assert!(matches!(matcher.decide(&rule, &candidate), MatchDecision::Ignored { .. }));
}

#[test]
fn test_ignore_part() {
    let rule = make_rule("*", None, "/watch");
    let matcher = RuleMatcher::new(&rule).unwrap();
    let candidate = make_candidate("/watch", "file.part");
    assert!(matches!(matcher.decide(&rule, &candidate), MatchDecision::Ignored { .. }));
}

#[test]
fn test_rule_disabled() {
    let mut rule = make_rule("*.xml", None, "/watch");
    rule.enabled = false;
    let matcher = RuleMatcher::new(&rule).unwrap();
    let candidate = make_candidate("/watch", "export.xml");
    assert!(matches!(
        matcher.decide(&rule, &candidate),
        MatchDecision::Ignored { reason: IgnoreReason::RuleDisabled }
    ));
}

#[test]
fn test_not_in_folder() {
    let rule = make_rule("*.xml", None, "/watch");
    let matcher = RuleMatcher::new(&rule).unwrap();
    let candidate = make_candidate("/other", "export.xml");
    assert!(matches!(
        matcher.decide(&rule, &candidate),
        MatchDecision::Ignored { reason: IgnoreReason::NotInFolder }
    ));
}

#[test]
fn test_invalid_regex_returns_error() {
    let rule = make_rule("*.xml", Some("[invalid"), "/watch");
    RuleMatcher::new(&rule).unwrap_err();
}

#[test]
fn ignore_reason_names_the_pattern() {
    let rule = make_rule("*", None, "/watch");
    let matcher = RuleMatcher::new(&rule).unwrap();
    for (name, pattern) in [
        ("a.tmp", "*.tmp"),
        ("a.part", "*.part"),
        ("a.crdownload", "*.crdownload"),
        ("a.download", "*.download"),
        ("~lock.docx", "~*"),
        (".a.swp", "*.swp"),
    ] {
        let candidate = make_candidate("/watch", name);
        match matcher.decide_with(&rule, &candidate, false) {
            MatchDecision::Ignored { reason: IgnoreReason::DefaultIgnorePattern { pattern: p } } => {
                assert_eq!(p, pattern)
            }
            other => panic!("{name}: {other:?}"),
        }
    }
}

#[test]
fn ignore_patterns_come_before_the_mask() {
    let rule = make_rule("*.tmp", None, "/watch");
    let matcher = RuleMatcher::new(&rule).unwrap();
    let candidate = make_candidate("/watch", "report.tmp");
    assert!(matches!(
        matcher.decide_with(&rule, &candidate, false),
        MatchDecision::Ignored { reason: IgnoreReason::DefaultIgnorePattern { .. } }
    ));
}

#[test]
fn directories_are_passed_over() {
    let rule = make_rule("*", None, "/watch");
    let matcher = RuleMatcher::new(&rule).unwrap();
    let candidate = make_candidate("/watch", "export.xml");
    assert!(matches!(
        matcher.decide_with(&rule, &candidate, true),
        MatchDecision::Ignored { reason: IgnoreReason::IsDirectory }
    ));
    assert!(matches!(matcher.decide_with(&rule, &candidate, false), MatchDecision::Matched));
}

#[test]
fn subdirectories_only_when_included() {
    let mut rule = make_rule("*.xml", None, "/watch");
    let matcher = RuleMatcher::new(&rule).unwrap();
    let candidate = make_candidate("/watch/sub/deeper", "export.xml");
    assert!(matches!(
        matcher.decide_with(&rule, &candidate, false),
        MatchDecision::Ignored { reason: IgnoreReason::NotInFolder }
    ));
    rule.include_subdirectories = true;
    assert!(matches!(matcher.decide_with(&rule, &candidate, false), MatchDecision::Matched));
    let outside = make_candidate("/watchers", "export.xml");
    assert!(matches!(
        matcher.decide_with(&rule, &outside, false),
        MatchDecision::Ignored { reason: IgnoreReason::NotInFolder }
    ));
}

#[test]
fn trailing_slash_on_folder_still_matches() {
    let rule = make_rule("*.xml", None, "/watch/");
    let matcher = RuleMatcher::new(&rule).unwrap();
    let candidate = make_candidate("/watch", "export.xml");
    assert!(matches!(matcher.decide_with(&rule, &candidate, false), MatchDecision::Matched));
}

#[test]
fn invalid_mask_is_reported_first() {
    let rule = make_rule("a[", Some("("), "/watch");
    match RuleMatcher::new(&rule) {
        Err(CoreError::InvalidGlob(m)) => assert!(!m.is_empty()),
        other => panic!("{:?}", other.err()),
    }
    let rule = make_rule("*.xml", Some("("), "/watch");
    match RuleMatcher::new(&rule) {
        Err(CoreError::InvalidRegex(m)) => assert!(!m.is_empty()),
        other => panic!("{:?}", other.err()),
    }
}

#[test]
fn pattern_validators() {
    assert_eq!(validate_glob("*.xml"), Ok(()));
    assert!(validate_glob("[").is_err());
    assert_eq!(validate_regex("^a+$"), Ok(()));
    assert!(validate_regex("a(").is_err());
}

#[test]
fn default_patterns_in_order() {
    assert_eq!(
        default_ignore_pattern_list(),
        vec!["*.tmp", "*.part", "*.crdownload", "*.download", "~*", "*.swp"]
    );
}

#[test]
fn ignore_reasons_describe_themselves() {
    assert_eq!(IgnoreReason::RuleDisabled.describe(), "rule is disabled");
    assert_eq!(IgnoreReason::NotInFolder.describe(), "not in watched folder");
    assert_eq!(IgnoreReason::IsDirectory.describe(), "is a directory");
    assert_eq!(IgnoreReason::MaskNotMatched.describe(), "file mask not matched");
    assert_eq!(IgnoreReason::RegexNotMatched.describe(), "regex not matched");
    assert_eq!(
        IgnoreReason::DefaultIgnorePattern { pattern: "*.tmp".into() }.describe(),
        "matches ignore pattern: *.tmp"
    );
}

#[test]
fn oversized_mask_is_refused_not_panicking() {
    let mask = "[!a]".repeat(200_000);
    let rule = make_rule(&mask, None, "/watch");
    assert!(validate_glob(&mask).is_ok());
    match RuleMatcher::new(&rule) {
        Err(CoreError::InvalidGlob(m)) => assert!(!m.is_empty()),
        other => panic!("expected InvalidGlob, got {:?}", other.map(|_| ())),
    }
}

#[test]
fn long_but_buildable_mask_matches() {
    let mask = format!("{}*", "[!~]".repeat(200));
    let rule = make_rule(&mask, None, "/watch");
    let matcher = RuleMatcher::new(&rule).unwrap();
    let name = "x".repeat(250);
    let candidate = make_candidate("/watch", &name);
    assert!(matches!(matcher.decide_with(&rule, &candidate, false), MatchDecision::Matched));
    let short = make_candidate("/watch", "x");
    assert!(matches!(
        matcher.decide_with(&rule, &short, false),
        MatchDecision::Ignored { reason: IgnoreReason::MaskNotMatched }
    ));
}
