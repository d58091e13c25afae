use fopener::gui::form_from_rule;
use fopener::gui::{form_test_message, form_test_message_with, push_log, rule_from_form, RuleForm};
use fopener::types::AppEvent;

fn form() -> RuleForm {
    RuleForm {
        name: "Exports".into(),
        path: "/watch".into(),
        mask: "*.xml".into(),
        regex: "  ".into(),
        include_subdirectories: false,
        executable: "xdg-open".into(),
        arguments: "  {file}\t--new   ".into(),
        debounce_ms: "250".into(),
        wait_until_stable: true,
        stable_check_ms: "oops".into(),
        stable_checks_count: "+4".into(),
        ready_timeout_sec: "99999999999999999999".into(),
        enabled: true,
    }
}

#[test]
fn window_event_wording() {
    let e = AppEvent::FileReady { rule_id: "r".into(), path: "/p".into() };
    assert_eq!(fopener::gui::format_event(&e), "[INFO] [r] File ready: /p");
}

#[test]
fn log_keeps_last_500_lines() {
    let mut lines = Vec::new();
    for i in 0..505 {
        push_log(&mut lines, "12:00:00", &format!("line {i}"));
    }
    assert_eq!(lines.len(), 500);
    assert_eq!(lines[0], "[12:00:00] line 5");
    assert_eq!(lines[499], "[12:00:00] line 504");
}

#[test]
fn form_becomes_rule() {
    let r = rule_from_form(&form(), "id-1").unwrap();
    assert_eq!(r.id, "id-1");
    assert_eq!(r.name, "Exports");
    assert!(r.regex.is_none());
    assert_eq!(r.action.arguments, vec!["{file}", "--new"]);
    assert_eq!(r.debounce_ms, 250);
    assert_eq!(r.stable_check_ms, 300);
    assert_eq!(r.stable_checks_count, 4);
    assert_eq!(r.ready_timeout_sec, 30);
}

#[test]
fn form_refusals() {
    let mut f = form();
    f.name = " ".into();
    assert_eq!(rule_from_form(&f, "i").unwrap_err(), "Rule name cannot be empty.");
    let mut f = form();
    f.mask = "".into();
    assert_eq!(rule_from_form(&f, "i").unwrap_err(), "File mask cannot be empty.");
    let mut f = form();
    f.regex = "(".into();
    assert!(rule_from_form(&f, "i").unwrap_err().starts_with("Invalid regex: "));
    let mut f = form();
    f.regex = "^ex".into();
    assert_eq!(rule_from_form(&f, "i").unwrap().regex.as_deref(), Some("^ex"));
}

#[test]
fn form_test_messages() {
    let f = form();
    assert_eq!(form_test_message(&f, "i", "a.xml"), "'a.xml' would MATCH this rule.");
    assert_eq!(
        form_test_message_with(&f, "i", "a.csv", false),
        "'a.csv' would be IGNORED: file mask not matched"
    );
    let mut bad = form();
    bad.mask = "[".into();
    assert!(form_test_message(&bad, "i", "a.xml").starts_with("Rule is invalid: Invalid glob pattern: "));
}

#[test]
fn form_filled_from_rule() {
    let mut r = fopener::types::WatchRule::new_default("Open");
    r.action.arguments = vec!["{file}".into(), "--new".into()];
    r.stable_checks_count = 12;
    r.ready_timeout_sec = 0;
    let f = form_from_rule(&r);
    assert_eq!(f.name, "Open");
    assert_eq!(f.regex, "");
    assert_eq!(f.arguments, "{file} --new");
    assert_eq!(f.debounce_ms, "1000");
    assert_eq!(f.stable_check_ms, "300");
    assert_eq!(f.stable_checks_count, "12");
    assert_eq!(f.ready_timeout_sec, "0");
    assert!(f.enabled);
    r.regex = Some("^a".into());
    assert_eq!(form_from_rule(&r).regex, "^a");
}
