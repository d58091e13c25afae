use fopener::debounce::{debounce_admits, DebounceTable};
use fopener::engine::{
    process_notification, startup_events, walk_order, ChangeKind, SessionPhase, WatchSession,
};
use std::cell::RefCell;
use std::sync::mpsc;

use fopener::engine::{
    compile_rules, lifecycle_events, on_action_done, on_decision, on_file_detected, on_stability,
    watch_targets, NextStep, WatcherEngine,
};
use fopener::matching::RuleMatcher;
use fopener::runner::{ActionResult, FakeActionRunner};
use fopener::stable::StabilityChecker;
use fopener::types::{AppEvent, FileCandidate, IgnoreReason, MatchDecision, WatchRule};

fn rule(id: &str, wait: bool) -> WatchRule {
    let mut r = WatchRule::new_default("Rule");
    r.id = id.to_owned();
    r.path = "/watch".to_owned();
    r.file_mask = "*.xml".to_owned();
    r.wait_until_stable = wait;
    r.action.executable = "ed".to_owned();
    r
}

fn render(events: &[AppEvent]) -> Vec<String> {
    events.iter().map(fopener::cli::format_event).collect()
}

#[test]
fn engine_keeps_its_rules() {
    let (tx, _rx) = mpsc::channel();
    let engine = WatcherEngine::new(vec![rule("a", true), rule("b", false)], FakeActionRunner::new(), tx);
    let (rules, runner, _tx) = engine.into_parts();
    assert_eq!(rules.len(), 2);
    assert_eq!(rules[1].id, "b");
    assert_eq!(runner.call_count(), 0);
}

#[test]
fn targets_and_lifecycle() {
    let mut b = rule("b", false);
    b.path = "/other".to_owned();
    b.include_subdirectories = true;
    let rules = vec![rule("a", true), b];
    assert_eq!(
        watch_targets(&rules),
        vec![("/watch".to_owned(), false), ("/other".to_owned(), true)]
    );
    assert_eq!(
        render(&lifecycle_events(&rules, true)),
        vec!["[INFO] Rule started: a", "[INFO] Rule started: b"]
    );
    assert_eq!(
        render(&lifecycle_events(&rules, false)),
        vec!["[INFO] Rule stopped: a", "[INFO] Rule stopped: b"]
    );
}

#[test]
fn compile_stops_at_first_bad_rule() {
    let mut bad = rule("bad", false);
    bad.regex = Some("(".to_owned());
    let rules = vec![rule("a", false), bad, rule("c", false)];
    match compile_rules(&rules) {
        Err((i, _)) => assert_eq!(i, 1),
        Ok(_) => panic!("expected an error"),
    }
    assert_eq!(compile_rules(&vec![rule("a", false)]).unwrap().len(), 1);
}

#[test]
fn matched_without_waiting_launches() {
    let r = rule("a", false);
    let m = RuleMatcher::new(&r).unwrap();
    let c = FileCandidate { path: "/watch/x.xml".to_owned(), file_name: "x.xml".to_owned(), size: None };
    let (events, next) = on_file_detected(&r, &m, &c);
    assert!(matches!(next, NextStep::Launch));
    assert_eq!(
        render(&events),
        vec![
            "[INFO] [a] Detected: /watch/x.xml",
            "[INFO] [a] Matched: /watch/x.xml",
            "[INFO] [a] File is ready: /watch/x.xml",
            "[INFO] [a] Launching: ed",
        ]
    );
}

#[test]
fn matched_with_waiting_waits() {
    let mut r = rule("a", true);
    r.stable_checks_count = 5;
    let (events, next) = on_decision(&r, &"/watch/x.xml".to_owned(), &MatchDecision::Matched);
    match next {
        NextStep::WaitStable(c) => {
            assert_eq!(c.required_stable_count, 5);
            assert_eq!(c.check_interval_ms, 300);
            assert_eq!(c.timeout_sec, 30);
        }
        other => panic!("{other:?}"),
    }
    assert_eq!(events.len(), 2);
}

#[test]
fn ignored_is_reported_with_reason() {
    let r = rule("a", true);
    let d = MatchDecision::Ignored { reason: IgnoreReason::MaskNotMatched };
    let (events, next) = on_decision(&r, &"/watch/x.csv".to_owned(), &d);
    assert!(matches!(next, NextStep::Skip));
    assert_eq!(
        render(&events),
        vec![
            "[INFO] [a] Detected: /watch/x.csv",
            "[DEBUG] [a] Ignored /watch/x.csv: file mask not matched",
        ]
    );
}

#[test]
fn after_waiting() {
    let r = rule("a", true);
    let p = "/watch/x.xml".to_owned();
    let (events, go) = on_stability(&r, &p, Ok(true));
    assert!(go);
    assert_eq!(events.len(), 2);
    let (events, go) = on_stability(&r, &p, Ok(false));
    assert!(!go);
    assert_eq!(render(&events), vec!["[WARN] Timeout waiting for file to stabilize: /watch/x.xml"]);
    let (events, go) = on_stability(&r, &p, Err("io".to_owned()));
    assert!(!go);
    assert_eq!(render(&events), vec!["[ERROR] Stability check error: io"]);
}

#[test]
fn action_outcomes() {
    let r = rule("a", false);
    let p = "/watch/x.xml".to_owned();
    let ok = on_action_done(&r, &p, &Ok(ActionResult { success: true, message: String::new() }));
    assert_eq!(fopener::cli::format_event(&ok), "[INFO] [a] Opened: /watch/x.xml");
    let bad = on_action_done(&r, &p, &Err("boom".to_owned()));
    assert_eq!(fopener::cli::format_event(&bad), "[ERROR] [a] Failed to open /watch/x.xml: boom");
}

#[test]
fn walk_tries_every_file_with_every_rule() {
    assert_eq!(
        walk_order(ChangeKind::Create, &vec![false, true, false], 2),
        vec![(0, 0), (0, 1), (2, 0), (2, 1)]
    );
    assert_eq!(walk_order(ChangeKind::Modify, &vec![false], 1), vec![(0, 0)]);
    assert!(walk_order(ChangeKind::Other, &vec![false, false], 3).is_empty());
    assert!(walk_order(ChangeKind::Create, &vec![true], 3).is_empty());
    assert!(walk_order(ChangeKind::Create, &vec![false], 0).is_empty());
}

#[test]
fn debounce_window() {
    assert!(debounce_admits(None, 5, 1000));
    assert!(!debounce_admits(Some(100), 600, 1000));
    assert!(debounce_admits(Some(100), 1100, 1000));
    assert!(debounce_admits(Some(100), 100, 0));
    assert!(!debounce_admits(Some(500), 100, 1));
}

#[test]
fn debounce_table_per_rule_and_file() {
    let mut t = DebounceTable::new();
    assert!(t.handles("r", "/a", 0, 1000));
    assert!(!t.handles("r", "/a", 500, 1000));
    assert!(t.handles("r", "/b", 500, 1000));
    assert!(t.handles("s", "/a", 500, 1000));
    assert!(!t.handles("r", "/a", 999, 1000));
    assert!(t.handles("r", "/a", 1000, 1000));
    assert!(!t.handles("r", "/a", 1999, 1000));
    assert!(t.handles("r", "/a", 2000, 1000));
}

fn candidate(path: &str) -> FileCandidate {
    FileCandidate::from_path(path.to_owned(), None)
}

#[test]
fn notification_runs_every_matching_rule() {
    let rules = vec![rule("a", false), rule("b", true)];
    let matchers = vec![RuleMatcher::new(&rules[0]).unwrap(), RuleMatcher::new(&rules[1]).unwrap()];
    let is_dir = vec![false, true, false];
    let candidates = vec![candidate("/watch/x.xml"), candidate("/watch/sub"), candidate("/watch/y.txt")];
    let mut table = DebounceTable::new();
    let mut runner = FakeActionRunner::new();
    let waited = RefCell::new(Vec::new());
    let wait = |c: StabilityChecker, p: usize| {
        waited.borrow_mut().push((p, c.required_stable_count));
        Ok(true)
    };
    let now = || 5000u64;
    let seen = RefCell::new(Vec::new());
    let emit = |e: AppEvent| seen.borrow_mut().push(fopener::cli::format_event(&e));
    let reports = process_notification(
        ChangeKind::Create, &is_dir, &candidates, &rules, &matchers, &mut table, &mut runner, &wait,
        &now, &emit,
    );
    let pairs: Vec<(usize, usize)> = reports.iter().map(|r| (r.path_index, r.rule_index)).collect();
    assert_eq!(pairs, vec![(0, 0), (0, 1), (2, 0), (2, 1)]);
    assert!(reports.iter().all(|r| r.handled));
    assert_eq!(
        runner.calls,
        vec![
            ("a".to_owned(), "/watch/x.xml".to_owned()),
            ("b".to_owned(), "/watch/x.xml".to_owned()),
        ]
    );
    assert_eq!(*waited.borrow(), vec![(0, 3)]);
    assert!(matches!(reports[0].waited, None));
    assert!(matches!(reports[1].waited, Some(Ok(true))));
    assert!(matches!(reports[2].decision, Some(MatchDecision::Ignored { .. })));
    assert!(reports[2].outcome.is_none() && reports[3].outcome.is_none());
    let seen = seen.borrow();
    assert_eq!(
        seen[..10].to_vec(),
        vec![
            "[INFO] [a] Detected: /watch/x.xml",
            "[INFO] [a] Matched: /watch/x.xml",
            "[INFO] [a] File is ready: /watch/x.xml",
            "[INFO] [a] Launching: ed",
            "[INFO] [a] Opened: /watch/x.xml",
            "[INFO] [b] Detected: /watch/x.xml",
            "[INFO] [b] Matched: /watch/x.xml",
            "[INFO] [b] File is ready: /watch/x.xml",
            "[INFO] [b] Launching: ed",
            "[INFO] [b] Opened: /watch/x.xml",
        ]
    );
    assert_eq!(seen.len(), 14);
    assert_eq!(seen[11], "[DEBUG] [a] Ignored /watch/y.txt: file mask not matched");
}

#[test]
fn notification_within_debounce_is_passed_over() {
    let rules = vec![rule("a", false)];
    let matchers = vec![RuleMatcher::new(&rules[0]).unwrap()];
    let candidates = vec![candidate("/watch/x.xml")];
    let mut table = DebounceTable::new();
    let mut runner = FakeActionRunner::new();
    let wait = |_: StabilityChecker, _: usize| Ok(true);
    let emit = |_: AppEvent| {};
    let first = process_notification(
        ChangeKind::Create, &vec![false], &candidates, &rules, &matchers, &mut table, &mut runner,
        &wait, &|| 100u64, &emit,
    );
    assert!(first[0].handled);
    let second = process_notification(
        ChangeKind::Modify, &vec![false], &candidates, &rules, &matchers, &mut table, &mut runner,
        &wait, &|| 600u64, &emit,
    );
    assert!(!second[0].handled);
    assert!(second[0].decision.is_none());
    let third = process_notification(
        ChangeKind::Modify, &vec![false], &candidates, &rules, &matchers, &mut table, &mut runner,
        &wait, &|| 1100u64, &emit,
    );
    assert!(third[0].handled);
    assert_eq!(runner.call_count(), 2);
    let other = process_notification(
        ChangeKind::Other, &vec![false], &candidates, &rules, &matchers, &mut table, &mut runner,
        &wait, &|| 9000u64, &emit,
    );
    assert!(other.is_empty());
    assert_eq!(runner.call_count(), 2);
}

#[test]
fn notification_after_timeout_does_not_launch() {
    let rules = vec![rule("a", true)];
    let matchers = vec![RuleMatcher::new(&rules[0]).unwrap()];
    let candidates = vec![candidate("/watch/x.xml")];
    let mut table = DebounceTable::new();
    let mut runner = FakeActionRunner::new();
    let seen = RefCell::new(Vec::new());
    let emit = |e: AppEvent| seen.borrow_mut().push(fopener::cli::format_event(&e));
    let reports = process_notification(
        ChangeKind::Create, &vec![false], &candidates, &rules, &matchers, &mut table, &mut runner,
        &|_: StabilityChecker, _: usize| Ok(false), &|| 0u64, &emit,
    );
    assert!(matches!(reports[0].waited, Some(Ok(false))));
    assert!(reports[0].outcome.is_none());
    assert_eq!(runner.call_count(), 0);
    assert_eq!(
        seen.borrow().last().unwrap(),
        "[WARN] Timeout waiting for file to stabilize: /watch/x.xml"
    );
}

#[test]
fn start_reports_warnings_then_rules() {
    let mut b = rule("b", false);
    b.path = "/other".to_owned();
    let rules = vec![rule("a", true), b];
    assert_eq!(
        render(&startup_events(&rules, &Ok(()), &vec![None, Some("no such folder".to_owned())])),
        vec![
            "[WARN] Failed to watch /other: no such folder",
            "[INFO] Rule started: a",
            "[INFO] Rule started: b",
        ]
    );
    assert_eq!(
        render(&startup_events(&rules, &Err("inotify limit".to_owned()), &Vec::new())),
        vec!["[ERROR] Failed to create watcher: inotify limit"]
    );
}

#[test]
fn session_starts_handles_and_stops() {
    let (tx, _rx) = mpsc::channel();
    let engine = WatcherEngine::new(vec![rule("a", false)], FakeActionRunner::new(), tx);
    let (mut session, _tx) = WatchSession::open(engine).ok().unwrap();
    assert_eq!(session.phase, SessionPhase::Ready);
    assert_eq!(render(&session.start(&Ok(()), &vec![None])), vec!["[INFO] Rule started: a"]);
    assert_eq!(session.phase, SessionPhase::Running);
    let reports = session.on_notification(
        ChangeKind::Create,
        &vec![false],
        &vec![candidate("/watch/x.xml")],
        &|_: StabilityChecker, _: usize| Ok(true),
        &|| 0u64,
        &|_: AppEvent| {},
    );
    assert_eq!(reports.len(), 1);
    assert_eq!(session.runner.call_count(), 1);
    let warning = session.on_watcher_error(&"queue overflow".to_owned());
    assert_eq!(fopener::cli::format_event(&warning), "[WARN] Watcher error: queue overflow");
    assert_eq!(render(&session.stop()), vec!["[INFO] Rule stopped: a"]);
    assert_eq!(session.phase, SessionPhase::Stopped);
}

#[test]
fn session_without_watcher_never_runs() {
    let (tx, _rx) = mpsc::channel();
    let engine = WatcherEngine::new(vec![rule("a", false)], FakeActionRunner::new(), tx);
    let (mut session, _tx) = WatchSession::open(engine).ok().unwrap();
    assert_eq!(
        render(&session.start(&Err("no inotify".to_owned()), &Vec::new())),
        vec!["[ERROR] Failed to create watcher: no inotify"]
    );
    assert_eq!(session.phase, SessionPhase::Stopped);
}

#[test]
fn session_refuses_a_rule_that_does_not_compile() {
    let mut bad = rule("bad", false);
    bad.regex = Some("(".to_owned());
    let (tx, _rx) = mpsc::channel();
    let engine = WatcherEngine::new(vec![rule("a", false), bad], FakeActionRunner::new(), tx);
    match WatchSession::open(engine) {
        Err((k, _)) => assert_eq!(k, 1),
        Ok(_) => panic!("the second rule does not compile"),
    }
}
