//! What the command-line tool decides and prints; reading the configuration,
//! printing, and starting processes are left to the program.
use vstd::prelude::*;
use crate::config::AppConfig;
use crate::error::core_error_text;
use crate::matching::{compile_spec, decision_on, RuleMatcher};
use crate::paths::{file_name_of, join_path, parent_of, path_file_name, path_is_dir, path_join, path_parent, paths_equal, same_path};
use crate::placeholders::or_empty;
use crate::text::{opt_view, same_text};
use crate::types::{reason_text, AppEvent, DecisionView, EventView, FileCandidate, MatchDecision, WatchRule};

verus! {

/// A line at a level about a rule: `level[id] rest`.
pub open spec fn tag(level: Seq<char>, id: Seq<char>, rest: Seq<char>) -> Seq<char> {
    level + "["@ + id + "] "@ + rest
}

/// The line that reports an event, with the given wording for a ready file.
pub open spec fn event_line(e: EventView, ready: Seq<char>) -> Seq<char> {
    match e {
        EventView::RuleStarted(id) => "[INFO] Rule started: "@ + id,
        EventView::RuleStopped(id) => "[INFO] Rule stopped: "@ + id,
        EventView::FileDetected(id, p) => tag("[INFO] "@, id, "Detected: "@ + p),
        EventView::FileIgnored(id, p, r) => tag("[DEBUG] "@, id, "Ignored "@ + p + ": "@ + r),
        EventView::FileMatched(id, p) => tag("[INFO] "@, id, "Matched: "@ + p),
        EventView::FileReady(id, p) => tag("[INFO] "@, id, ready + p),
        EventView::ActionStarted(id, exe, _) => tag("[INFO] "@, id, "Launching: "@ + exe),
        EventView::ActionCompleted(id, p) => tag("[INFO] "@, id, "Opened: "@ + p),
        EventView::ActionFailed(id, p, err) => tag(
            "[ERROR] "@,
            id,
            "Failed to open "@ + p + ": "@ + err,
        ),
        EventView::Warning(m) => "[WARN] "@ + m,
        EventView::Error(m) => "[ERROR] "@ + m,
    }
}

fn tagged(level: &str, id: &String, rest: &str) -> (res: String)
    ensures
        res@ == tag(level@, id@, rest@),
{
    String::from_str(level).concat("[").concat(id.as_str()).concat("] ").concat(rest)
}

/// The line that reports an event, with `ready` as the wording for a ready file.
pub fn event_line_with(event: &AppEvent, ready: &str) -> (res: String)
    ensures
        res@ == event_line(event@, ready@),
{
    match event {
        AppEvent::RuleStarted { rule_id } => String::from_str("[INFO] Rule started: ").concat(
            rule_id.as_str(),
        ),
        AppEvent::RuleStopped { rule_id } => String::from_str("[INFO] Rule stopped: ").concat(
            rule_id.as_str(),
        ),
        AppEvent::FileDetected { rule_id, path } => {
            let r = String::from_str("Detected: ").concat(path.as_str());
            tagged("[INFO] ", rule_id, r.as_str())
        },
        AppEvent::FileIgnored { rule_id, path, reason } => {
            let r = String::from_str("Ignored ").concat(path.as_str()).concat(": ").concat(
                reason.as_str(),
            );
            tagged("[DEBUG] ", rule_id, r.as_str())
        },
        AppEvent::FileMatched { rule_id, path } => {
            let r = String::from_str("Matched: ").concat(path.as_str());
            tagged("[INFO] ", rule_id, r.as_str())
        },
        AppEvent::FileReady { rule_id, path } => {
            let r = String::from_str(ready).concat(path.as_str());
            tagged("[INFO] ", rule_id, r.as_str())
        },
        AppEvent::ActionStarted { rule_id, executable, .. } => {
            let r = String::from_str("Launching: ").concat(executable.as_str());
            tagged("[INFO] ", rule_id, r.as_str())
        },
        AppEvent::ActionCompleted { rule_id, path } => {
            let r = String::from_str("Opened: ").concat(path.as_str());
            tagged("[INFO] ", rule_id, r.as_str())
        },
        AppEvent::ActionFailed { rule_id, path, error } => {
            let r = String::from_str("Failed to open ").concat(path.as_str()).concat(": ").concat(
                error.as_str(),
            );
            tagged("[ERROR] ", rule_id, r.as_str())
        },
        AppEvent::Warning { message } => String::from_str("[WARN] ").concat(message.as_str()),
        AppEvent::Error { message } => String::from_str("[ERROR] ").concat(message.as_str()),
    }
}

/// The line the command-line tool prints for an event.
pub fn format_event(event: &AppEvent) -> (res: String)
    ensures
        res@ == event_line(event@, "File is ready: "@),
{
    event_line_with(event, "File is ready: ")
}

/// The enabled rules among `rules`, in order.
pub open spec fn enabled_only(rules: Seq<WatchRule>) -> Seq<WatchRule>
    decreases rules.len(),
{
    if rules.len() == 0 {
        rules
    } else if rules.last().enabled {
        enabled_only(rules.drop_last()).push(rules.last())
    } else {
        enabled_only(rules.drop_last())
    }
}

/// The enabled rules, in order: the ones to watch.
pub fn active_rules(rules: Vec<WatchRule>) -> (res: Vec<WatchRule>)
    ensures
        res@ == enabled_only(rules@),
{
    let ghost all = rules@;
    let mut rest = rules;
    let mut res: Vec<WatchRule> = Vec::new();
    let ghost mut i: int = 0;
    assert(all.skip(0) =~= all);
    while rest.len() > 0
        invariant
            0 <= i <= all.len(),
            rest@ == all.skip(i),
            res@ == enabled_only(all.take(i)),
        decreases rest@.len(),
    {
        let r = rest.remove(0);
        assert(all.take(i + 1).drop_last() =~= all.take(i));
        assert(all.take(i + 1).last() == all[i]);
        if r.enabled {
            res.push(r);
        }
        assert(rest@ =~= all.skip(i + 1));
        proof {
            i = i + 1;
        }
    }
    assert(all.take(i) =~= all);
    res
}

/// The rules to watch: the enabled ones, in order, or the message that
/// there are none.
pub fn watch_rules(rules: Vec<WatchRule>) -> (res: Result<Vec<WatchRule>, String>)
    ensures
        enabled_only(rules@).len() > 0 ==> (res matches Ok(v) && v@ == enabled_only(rules@)),
        enabled_only(rules@).len() == 0 ==> (res matches Err(m) && m@
            == "No enabled rules found in config."@),
{
    let active = active_rules(rules);
    if active.len() == 0 {
        Err(String::from_str("No enabled rules found in config."))
    } else {
        Ok(active)
    }
}

/// Whether a rule's id or name is `key`.
pub open spec fn is_named(rule: WatchRule, key: Seq<char>) -> bool {
    rule.id@ == key || rule.name@ == key
}

/// Whether `i` is the position of the first rule whose id or name is `key`.
pub open spec fn is_first_named(rules: Seq<WatchRule>, key: Seq<char>, i: int) -> bool {
    &&& 0 <= i < rules.len()
    &&& is_named(rules[i], key)
    &&& forall|j: int| 0 <= j < i ==> !is_named(#[trigger] rules[j], key)
}

/// Finds the first rule whose id or name is `key`.
pub fn find_rule(config: &AppConfig, key: &str) -> (res: Option<usize>)
    ensures
        match res {
            Some(i) => is_first_named(config.rules@, key@, i as int),
            None => forall|j: int|
                0 <= j < config.rules@.len() ==> !is_named(#[trigger] config.rules@[j], key@),
        },
{
    let n: usize = config.rules.len();
    let mut i: usize = 0;
    while i < n
        invariant
            n == config.rules@.len(),
            i <= n,
            forall|j: int| 0 <= j < i ==> !is_named(#[trigger] config.rules@[j], key@),
        decreases n - i,
    {
        let found = same_text(config.rules[i].id.as_str(), key) || same_text(
            config.rules[i].name.as_str(),
            key,
        );
        if found {
            return Some(i);
        }
        assert(!is_named(config.rules@[i as int], key@));
        i = i + 1;
    }
    None
}

/// The path a file given to `test-rule` is tried at: as given when it names
/// a directory, and otherwise inside the rule's folder.
pub open spec fn test_path(rule_path: Seq<char>, file: Seq<char>) -> Seq<char> {
    match path_parent(file) {
        Some(p) => if !paths_equal(p, Seq::<char>::empty()) {
            file
        } else {
            path_join(rule_path, file)
        },
        None => path_join(rule_path, file),
    }
}

/// The candidate that `test-rule` asks a rule about: the file at its test
/// path, with the file's final component as its name and no size.
pub fn test_candidate(rule: &WatchRule, file: &str) -> (c: FileCandidate)
    ensures
        c.path@ == test_path(rule.path@, file@),
        c.file_name@ == or_empty(path_file_name(file@)),
        c.size is None,
{
    proof {
        reveal_strlit("");
        assert(""@ =~= Seq::<char>::empty());
    }
    let file_name = match file_name_of(file) {
        Some(n) => n,
        None => String::new(),
    };
    let path = match parent_of(file) {
        Some(p) => if !same_path(p.as_str(), "") {
            String::from_str(file)
        } else {
            join_path(rule.path.as_str(), file)
        },
        None => join_path(rule.path.as_str(), file),
    };
    FileCandidate { path, file_name, size: None }
}

/// What a command prints, and whether it succeeded.
pub struct Report {
    pub out: Vec<String>,
    pub err: Vec<String>,
    pub success: bool,
}

/// The lines `test-rule` prints for a rule's decision.
pub open spec fn decision_lines(has_regex: bool, d: DecisionView) -> Seq<Seq<char>> {
    match d {
        DecisionView::Matched => {
            let head = seq!["Wildcard: matched"@];
            let mid = if has_regex { head.push("Regex: matched"@) } else { head };
            mid + seq!["Default ignore patterns: passed"@, Seq::<char>::empty(), "Decision: matched"@]
        },
        DecisionView::Ignored(r) => seq!["Decision: ignored \u{2014} "@ + reason_text(r)],
    }
}

/// What `test-rule` prints for a rule and a file, given whether the file's
/// test path is a directory: the rule and the file, then the decision, or the
/// error that the rule does not compile.
pub open spec fn rule_test_spec(rule: WatchRule, file: Seq<char>, is_dir: bool) -> (
    Seq<Seq<char>>,
    Seq<Seq<char>>,
    bool,
) {
    let name = or_empty(path_file_name(file));
    let head = seq!["Rule: "@ + rule.name@, "File: "@ + name, Seq::<char>::empty()];
    match compile_spec(rule.file_mask@, opt_view(rule.regex)) {
        Err(e) => (head, seq!["Invalid rule: "@ + core_error_text(e)], false),
        Ok(m) => (
            head + decision_lines(
                rule.regex is Some,
                decision_on(
                    m,
                    rule.enabled,
                    rule.include_subdirectories,
                    rule.path@,
                    test_path(rule.path@, file),
                    name,
                    is_dir,
                ),
            ),
            Seq::<Seq<char>>::empty(),
            true,
        ),
    }
}

/// What `test-rule` prints for the rule named `key` and `file`, given whether
/// the file's test path is a directory.
pub open spec fn test_rule_spec(rules: Seq<WatchRule>, key: Seq<char>, file: Seq<char>, is_dir: bool) -> (
    Seq<Seq<char>>,
    Seq<Seq<char>>,
    bool,
) {
    if exists|i: int| is_first_named(rules, key, i) {
        rule_test_spec(rules[choose|i: int| is_first_named(rules, key, i)], file, is_dir)
    } else {
        (Seq::<Seq<char>>::empty(), seq!["Rule not found: "@ + key], false)
    }
}

proof fn lemma_first_named_unique(rules: Seq<WatchRule>, key: Seq<char>, i: int, j: int)
    requires
        is_first_named(rules, key, i),
        is_first_named(rules, key, j),
    ensures
        i == j,
{
    if i < j {
        assert(!is_named(rules[i], key));
    } else if j < i {
        assert(!is_named(rules[j], key));
    }
}

fn push_line(lines: &mut Vec<String>, line: String)
    ensures
        final(lines).deep_view() == old(lines).deep_view().push(line@),
{
    let ghost before = lines.deep_view();
    lines.push(line);
    assert(lines.deep_view() =~= before.push(line@));
}

/// What `test-rule` prints for a rule and a file, given whether the file's
/// test path is a directory.
pub fn rule_test_lines(rule: &WatchRule, file: &str, is_dir: bool) -> (r: Report)
    ensures
        (r.out.deep_view(), r.err.deep_view(), r.success) == rule_test_spec(*rule, file@, is_dir),
{
    let candidate = test_candidate(rule, file);
    let mut out: Vec<String> = Vec::new();
    let mut err: Vec<String> = Vec::new();
    push_line(&mut out, String::from_str("Rule: ").concat(rule.name.as_str()));
    push_line(&mut out, String::from_str("File: ").concat(candidate.file_name.as_str()));
    push_line(&mut out, String::new());
    let ghost head = out.deep_view();
    match RuleMatcher::new(rule) {
        Err(e) => {
            push_line(&mut err, String::from_str("Invalid rule: ").concat(e.to_message().as_str()));
            assert(err.deep_view() =~= seq!["Invalid rule: "@ + core_error_text(e@)]);
            Report { out, err, success: false }
        },
        Ok(m) => {
            let d = m.decide_with(rule, &candidate, is_dir);
            match d {
                MatchDecision::Matched => {
                    push_line(&mut out, String::from_str("Wildcard: matched"));
                    if rule.regex.is_some() {
                        push_line(&mut out, String::from_str("Regex: matched"));
                    }
                    push_line(&mut out, String::from_str("Default ignore patterns: passed"));
                    push_line(&mut out, String::new());
                    push_line(&mut out, String::from_str("Decision: matched"));
                },
                MatchDecision::Ignored { reason } => {
                    push_line(
                        &mut out,
                        String::from_str("Decision: ignored \u{2014} ").concat(reason.describe().as_str()),
                    );
                },
            }
            assert(out.deep_view() =~= head + decision_lines(rule.regex is Some, d@));
            assert(err.deep_view() =~= Seq::<Seq<char>>::empty());
            Report { out, err, success: true }
        },
    }
}

/// What `test-rule` prints for the rule whose id or name is `key` and for
/// `file`. Whether the file's test path is a directory is asked of the file
/// system, so the report is the one for either answer.
pub fn test_rule_report(config: &AppConfig, key: &str, file: &str) -> (r: Report)
    ensures
        (r.out.deep_view(), r.err.deep_view(), r.success) == test_rule_spec(config.rules@, key@, file@, false)
            || (r.out.deep_view(), r.err.deep_view(), r.success) == test_rule_spec(
            config.rules@,
            key@,
            file@,
            true,
        ),
{
    match find_rule(config, key) {
        None => {
            let mut err: Vec<String> = Vec::new();
            push_line(&mut err, String::from_str("Rule not found: ").concat(key));
            let out: Vec<String> = Vec::new();
            assert(out.deep_view() =~= Seq::<Seq<char>>::empty());
            assert(err.deep_view() =~= seq!["Rule not found: "@ + key@]);
            Report { out, err, success: false }
        },
        Some(i) => {
            proof {
                let j = choose|j: int| is_first_named(config.rules@, key@, j);
                lemma_first_named_unique(config.rules@, key@, i as int, j);
            }
            let rule = &config.rules[i];
            let candidate = test_candidate(rule, file);
            let is_dir = path_is_dir(candidate.path.as_str());
            rule_test_lines(rule, file, is_dir)
        },
    }
}

/// Whether `open-once` would open a file at `path` named `name` with `rule`,
/// given whether the path is a directory: the rule is enabled, compiles, and
/// takes the file.
pub open spec fn opens_with(rule: WatchRule, path: Seq<char>, name: Seq<char>, is_dir: bool) -> bool {
    &&& rule.enabled
    &&& compile_spec(rule.file_mask@, opt_view(rule.regex)) is Ok
    &&& decision_on(
        compile_spec(rule.file_mask@, opt_view(rule.regex))->Ok_0,
        rule.enabled,
        rule.include_subdirectories,
        rule.path@,
        path,
        name,
        is_dir,
    ) == DecisionView::Matched
}

/// The position of the first rule that would open the candidate, given
/// whether its path is a directory.
pub open spec fn first_opener_spec(rules: Seq<WatchRule>, c: FileCandidate, is_dir: bool) -> Option<int>
    decreases rules.len(),
{
    if rules.len() == 0 {
        None
    } else {
        match first_opener_spec(rules.drop_last(), c, is_dir) {
            Some(i) => Some(i),
            None => if opens_with(rules.last(), c.path@, c.file_name@, is_dir) {
                Some(rules.len() - 1)
            } else {
                None
            },
        }
    }
}

/// The position of the first rule that would open the candidate, given
/// whether its path is a directory.
pub fn first_opener_with(rules: &Vec<WatchRule>, candidate: &FileCandidate, is_dir: bool) -> (res: Option<
    usize,
>)
    ensures
        match res {
            Some(i) => first_opener_spec(rules@, *candidate, is_dir) == Some(i as int),
            None => first_opener_spec(rules@, *candidate, is_dir) is None,
        },
{
    let n: usize = rules.len();
    let mut i: usize = 0;
    while i < n
        invariant
            n == rules@.len(),
            i <= n,
            first_opener_spec(rules@.take(i as int), *candidate, is_dir) is None,
        decreases n - i,
    {
        assert(rules@.take(i + 1).drop_last() =~= rules@.take(i as int));
        let rule = &rules[i];
        if rule.enabled {
            match RuleMatcher::new(rule) {
                Ok(m) => {
                    let d = m.decide_with(rule, candidate, is_dir);
                    match d {
                        MatchDecision::Matched => {
                            proof {
                                lemma_first_opener_prefix(rules@, *candidate, is_dir, i + 1);
                            }
                            return Some(i);
                        },
                        MatchDecision::Ignored { .. } => {},
                    }
                },
                Err(_) => {},
            }
        }
        i = i + 1;
    }
    assert(rules@.take(n as int) =~= rules@);
    None
}

proof fn lemma_first_opener_prefix(rules: Seq<WatchRule>, c: FileCandidate, is_dir: bool, k: int)
    requires
        0 < k <= rules.len(),
        first_opener_spec(rules.take(k), c, is_dir) == Some(k - 1),
    ensures
        first_opener_spec(rules, c, is_dir) == Some(k - 1),
    decreases rules.len(),
{
    if k == rules.len() {
        assert(rules.take(k) =~= rules);
    } else {
        assert(rules.drop_last().take(k) =~= rules.take(k));
        lemma_first_opener_prefix(rules.drop_last(), c, is_dir, k);
    }
}

/// The position of the first rule that `open-once` opens the candidate with.
/// Whether its path is a directory is asked of the file system, so the
/// answer is the one for either answer.
pub fn first_opener(rules: &Vec<WatchRule>, candidate: &FileCandidate) -> (res: Option<usize>)
    ensures
        match res {
            Some(i) => first_opener_spec(rules@, *candidate, false) == Some(i as int)
                || first_opener_spec(rules@, *candidate, true) == Some(i as int),
            None => first_opener_spec(rules@, *candidate, false) is None || first_opener_spec(
                rules@,
                *candidate,
                true,
            ) is None,
        },
{
    let is_dir = path_is_dir(candidate.path.as_str());
    first_opener_with(rules, candidate, is_dir)
}

/// The lines to print for `validate-config`'s list of problems: that the
/// configuration is valid, or each problem as an error.
pub fn validation_report(errors: &Vec<String>) -> (r: Report)
    ensures
        errors@.len() == 0 ==> r.success && r.out.deep_view() == seq!["Config is valid."@]
            && r.err@.len() == 0,
        errors@.len() > 0 ==> !r.success && r.out@.len() == 0 && r.err.deep_view()
            == errors.deep_view().map_values(|e: Seq<char>| "Error: "@ + e),
{
    let mut out: Vec<String> = Vec::new();
    let mut err: Vec<String> = Vec::new();
    let n: usize = errors.len();
    if n == 0 {
        push_line(&mut out, String::from_str("Config is valid."));
        assert(out.deep_view() =~= seq!["Config is valid."@]);
        return Report { out, err, success: true };
    }
    let mut i: usize = 0;
    while i < n
        invariant
            n == errors@.len(),
            i <= n,
            err.deep_view() == errors.deep_view().take(i as int).map_values(
                |e: Seq<char>| "Error: "@ + e,
            ),
        decreases n - i,
    {
        assert(errors.deep_view()[i as int] == errors@[i as int]@);
        push_line(&mut err, String::from_str("Error: ").concat(errors[i].as_str()));
        assert(errors.deep_view().take(i + 1).map_values(|e: Seq<char>| "Error: "@ + e)
            =~= errors.deep_view().take(i as int).map_values(|e: Seq<char>| "Error: "@ + e).push(
            "Error: "@ + errors@[i as int]@,
        ));
        i = i + 1;
    }
    assert(errors.deep_view().take(n as int) =~= errors.deep_view());
    Report { out, err, success: false }
}

/// What `test-rule` prints depends on the file only through the path it is
/// tried at and its final component: two files with the same test path and
/// the same file name give the same report.
pub proof fn lemma_test_depends_on_path_and_name(rule: WatchRule, f1: Seq<char>, f2: Seq<char>, is_dir: bool)
    requires
        test_path(rule.path@, f1) == test_path(rule.path@, f2),
        path_file_name(f1) == path_file_name(f2),
    ensures
        rule_test_spec(rule, f1, is_dir) == rule_test_spec(rule, f2, is_dir),
{
}

/// `open-once` picks a rule that opens the file, and no earlier rule opens
/// it; it picks none only when no rule opens it. A rule that is disabled or
/// does not compile keeps no later rule from being picked.
pub proof fn lemma_first_opener_is_first(rules: Seq<WatchRule>, c: FileCandidate, is_dir: bool)
    ensures
        match first_opener_spec(rules, c, is_dir) {
            Some(i) => {
                &&& 0 <= i < rules.len()
                &&& opens_with(rules[i], c.path@, c.file_name@, is_dir)
                &&& forall|j: int| 0 <= j < i ==> !opens_with(#[trigger] rules[j], c.path@, c.file_name@, is_dir)
            },
            None => forall|j: int|
                0 <= j < rules.len() ==> !opens_with(#[trigger] rules[j], c.path@, c.file_name@, is_dir),
        },
    decreases rules.len(),
{
    if rules.len() > 0 {
        let prev = rules.drop_last();
        lemma_first_opener_is_first(prev, c, is_dir);
        assert forall|j: int| 0 <= j < prev.len() implies #[trigger] prev[j] == rules[j] by {}
        match first_opener_spec(prev, c, is_dir) {
            Some(i) => {
                assert(prev[i] == rules[i]);
                assert forall|j: int| 0 <= j < i implies !opens_with(#[trigger] rules[j], c.path@, c.file_name@, is_dir) by {
                    assert(prev[j] == rules[j]);
                }
            },
            None => {
                assert forall|j: int| 0 <= j < rules.len() - 1 implies !opens_with(#[trigger] rules[j], c.path@, c.file_name@, is_dir) by {
                    assert(prev[j] == rules[j]);
                }
            },
        }
    }
}

} // verus!
