//! What the desktop window decides: how events read in its log, how long the
//! log grows, and how the rule editor turns its fields into a rule.
use vstd::prelude::*;
use crate::cli::{event_line, event_line_with};
use crate::error::core_error_text;
use crate::matching::{compile_spec, decision_on, regex_parse, validate_regex, RuleMatcher};
use crate::paths::{join_path, path_is_dir, path_join};
use crate::text::{
    decimal_text, is_blank, is_blank_spec, join_spec, join_with, parse_decimal, parse_u32, parse_u64,
    split_words, u64_text, words,
};
use crate::types::{reason_text, ActionTemplate, DecisionView, FileCandidate, MatchDecision, WatchRule};

verus! {

/// The line the window's log shows for an event.
pub fn format_event(event: &crate::types::AppEvent) -> (res: String)
    ensures
        res@ == event_line(event@, "File ready: "@),
{
    event_line_with(event, "File ready: ")
}

/// The log after a line is added: at most the last 500 lines.
pub open spec fn log_after(lines: Seq<Seq<char>>, line: Seq<char>) -> Seq<Seq<char>> {
    let all = lines.push(line);
    if all.len() > 500 {
        all.skip(all.len() - 500)
    } else {
        all
    }
}

/// Adds `[timestamp] message` to the log, keeping only its last 500 lines.
pub fn push_log(lines: &mut Vec<String>, timestamp: &str, message: &str)
    ensures
        final(lines).deep_view() == log_after(
            old(lines).deep_view(),
            "["@ + timestamp@ + "] "@ + message@,
        ),
        final(lines)@.len() <= 500,
        final(lines)@.len() > 0 && final(lines)@.last()@ == "["@ + timestamp@ + "] "@ + message@,
{
    let line = String::from_str("[").concat(timestamp).concat("] ").concat(message);
    let ghost all = lines.deep_view().push(line@);
    let ghost line_view = line@;
    lines.push(line);
    assert(lines.deep_view() =~= all);
    let ghost mut dropped: int = 0;
    while lines.len() > 500
        invariant
            0 <= dropped,
            all.len() > 500 ==> dropped <= all.len() - 500,
            all.len() <= 500 ==> dropped == 0,
            lines.deep_view() == all.skip(dropped),
        decreases lines@.len(),
    {
        let ghost before = lines.deep_view();
        lines.remove(0);
        assert(lines.deep_view() =~= before.skip(1));
        assert(all.skip(dropped).skip(1) =~= all.skip(dropped + 1));
        proof {
            dropped = dropped + 1;
        }
    }
    assert(lines.deep_view().len() == lines@.len());
    proof {
        if all.len() <= 500 {
            assert(all.skip(0) =~= all);
        }
    }
    assert(lines@.last()@ == lines.deep_view().last());
}

/// The fields of the rule editor, as typed.
pub struct RuleForm {
    pub name: String,
    pub path: String,
    pub mask: String,
    pub regex: String,
    pub include_subdirectories: bool,
    pub executable: String,
    pub arguments: String,
    pub debounce_ms: String,
    pub wait_until_stable: bool,
    pub stable_check_ms: String,
    pub stable_checks_count: String,
    pub ready_timeout_sec: String,
    pub enabled: bool,
}

/// Whether `form` shows `rule` as the editor fills it in: the texts as they
/// are, no regex as an empty field, the arguments joined by single spaces,
/// the numbers in decimal.
pub open spec fn shows_rule(rule: WatchRule, form: RuleForm) -> bool {
    &&& form.name@ == rule.name@
    &&& form.path@ == rule.path@
    &&& form.mask@ == rule.file_mask@
    &&& form.regex@ == (match rule.regex {
        Some(r) => r@,
        None => Seq::<char>::empty(),
    })
    &&& form.include_subdirectories == rule.include_subdirectories
    &&& form.executable@ == rule.action.executable@
    &&& form.arguments@ == join_spec(rule.action.arguments.deep_view(), " "@)
    &&& form.debounce_ms@ == decimal_text(rule.debounce_ms as nat)
    &&& form.wait_until_stable == rule.wait_until_stable
    &&& form.stable_check_ms@ == decimal_text(rule.stable_check_ms as nat)
    &&& form.stable_checks_count@ == decimal_text(rule.stable_checks_count as nat)
    &&& form.ready_timeout_sec@ == decimal_text(rule.ready_timeout_sec as nat)
    &&& form.enabled == rule.enabled
}

/// The editor's fields filled in from a rule.
pub fn form_from_rule(rule: &WatchRule) -> (form: RuleForm)
    ensures
        shows_rule(*rule, form),
{
    let regex = match &rule.regex {
        Some(r) => r.clone(),
        None => String::new(),
    };
    RuleForm {
        name: rule.name.clone(),
        path: rule.path.clone(),
        mask: rule.file_mask.clone(),
        regex,
        include_subdirectories: rule.include_subdirectories,
        executable: rule.action.executable.clone(),
        arguments: join_with(&rule.action.arguments, " "),
        debounce_ms: u64_text(rule.debounce_ms),
        wait_until_stable: rule.wait_until_stable,
        stable_check_ms: u64_text(rule.stable_check_ms),
        stable_checks_count: u64_text(rule.stable_checks_count as u64),
        ready_timeout_sec: u64_text(rule.ready_timeout_sec),
        enabled: rule.enabled,
    }
}

/// The first reason the editor refuses to save, if any: a blank name, a blank
/// mask, a regex that is not blank and does not compile.
pub open spec fn form_problem(form: RuleForm) -> Option<Seq<char>> {
    if is_blank_spec(form.name@) {
        Some("Rule name cannot be empty."@)
    } else if is_blank_spec(form.mask@) {
        Some("File mask cannot be empty."@)
    } else if !is_blank_spec(form.regex@) && regex_parse(form.regex@) is Err {
        Some("Invalid regex: "@ + regex_parse(form.regex@)->Err_0)
    } else {
        None
    }
}

/// The number a field reads as when it is one no larger than `max`, and
/// otherwise `default`.
pub open spec fn number_or(field: Seq<char>, max: nat, default: nat) -> nat {
    match parse_decimal(field) {
        Some(v) => if v <= max { v } else { default },
        None => default,
    }
}

/// The regex field as a rule holds it: none when it is blank.
pub open spec fn form_regex(field: Seq<char>) -> Option<Seq<char>> {
    if is_blank_spec(field) {
        None
    } else {
        Some(field)
    }
}

/// Whether `r` is the rule the editor saves from `form` with the id `id`.
pub open spec fn saved_rule(form: RuleForm, id: Seq<char>, r: WatchRule) -> bool {
    &&& r.id@ == id
    &&& r.name@ == form.name@
    &&& r.enabled == form.enabled
    &&& r.path@ == form.path@
    &&& r.include_subdirectories == form.include_subdirectories
    &&& r.file_mask@ == form.mask@
    &&& crate::text::opt_view(r.regex) == form_regex(form.regex@)
    &&& r.action.executable@ == form.executable@
    &&& r.action.arguments.deep_view() == words(form.arguments@)
    &&& r.debounce_ms == number_or(form.debounce_ms@, u64::MAX as nat, 1000)
    &&& r.wait_until_stable == form.wait_until_stable
    &&& r.stable_check_ms == number_or(form.stable_check_ms@, u64::MAX as nat, 300)
    &&& r.stable_checks_count == number_or(form.stable_checks_count@, u32::MAX as nat, 3)
    &&& r.ready_timeout_sec == number_or(form.ready_timeout_sec@, u64::MAX as nat, 30)
}

fn u64_or(field: &str, default: u64) -> (v: u64)
    ensures
        v == number_or(field@, u64::MAX as nat, default as nat),
{
    match parse_u64(field) {
        Some(v) => v,
        None => default,
    }
}

/// The rule the editor saves with the id `id`, or the message that says why
/// it does not.
pub fn rule_from_form(form: &RuleForm, id: &str) -> (res: Result<WatchRule, String>)
    ensures
        match res {
            Ok(r) => form_problem(*form) is None && saved_rule(*form, id@, r),
            Err(m) => form_problem(*form) == Some(m@),
        },
{
    if is_blank(form.name.as_str()) {
        return Err(String::from_str("Rule name cannot be empty."));
    }
    if is_blank(form.mask.as_str()) {
        return Err(String::from_str("File mask cannot be empty."));
    }
    let regex = if is_blank(form.regex.as_str()) {
        None
    } else {
        match validate_regex(form.regex.as_str()) {
            Err(e) => {
                return Err(String::from_str("Invalid regex: ").concat(e.as_str()));
            },
            Ok(_) => {},
        }
        Some(form.regex.clone())
    };
    let stable_checks_count = match parse_u32(form.stable_checks_count.as_str()) {
        Some(v) => v,
        None => 3,
    };
    Ok(
        WatchRule {
            id: String::from_str(id),
            name: form.name.clone(),
            enabled: form.enabled,
            path: form.path.clone(),
            include_subdirectories: form.include_subdirectories,
            file_mask: form.mask.clone(),
            regex,
            action: ActionTemplate {
                executable: form.executable.clone(),
                arguments: split_words(form.arguments.as_str()),
            },
            debounce_ms: u64_or(form.debounce_ms.as_str(), 1000),
            wait_until_stable: form.wait_until_stable,
            stable_check_ms: u64_or(form.stable_check_ms.as_str(), 300),
            stable_checks_count,
            ready_timeout_sec: u64_or(form.ready_timeout_sec.as_str(), 30),
        },
    )
}

/// What the editor's test says of a file name typed in for the rule in the
/// form, given whether the file's path in the rule's folder is a directory.
pub open spec fn form_test_spec(form: RuleForm, file: Seq<char>, is_dir: bool) -> Seq<char> {
    match compile_spec(form.mask@, form_regex(form.regex@)) {
        Err(e) => "Rule is invalid: "@ + core_error_text(e),
        Ok(m) => match decision_on(
            m,
            true,
            form.include_subdirectories,
            form.path@,
            path_join(form.path@, file),
            file,
            is_dir,
        ) {
            DecisionView::Matched => "'"@ + file + "' would MATCH this rule."@,
            DecisionView::Ignored(r) => "'"@ + file + "' would be IGNORED: "@ + reason_text(r),
        },
    }
}

/// What the editor's test says of `file` for the rule in the form, given
/// whether the file's path is a directory.
pub fn form_test_message_with(form: &RuleForm, id: &str, file: &str, is_dir: bool) -> (res: String)
    ensures
        res@ == form_test_spec(*form, file@, is_dir),
{
    let regex = if is_blank(form.regex.as_str()) {
        None
    } else {
        Some(form.regex.clone())
    };
    let rule = WatchRule {
        id: String::from_str(id),
        name: form.name.clone(),
        enabled: true,
        path: form.path.clone(),
        include_subdirectories: form.include_subdirectories,
        file_mask: form.mask.clone(),
        regex,
        action: ActionTemplate { executable: String::new(), arguments: Vec::new() },
        debounce_ms: 1000,
        wait_until_stable: true,
        stable_check_ms: 300,
        stable_checks_count: 3,
        ready_timeout_sec: 30,
    };
    let candidate = FileCandidate {
        path: join_path(form.path.as_str(), file),
        file_name: String::from_str(file),
        size: None,
    };
    match RuleMatcher::new(&rule) {
        Err(e) => String::from_str("Rule is invalid: ").concat(e.to_message().as_str()),
        Ok(m) => match m.decide_with(&rule, &candidate, is_dir) {
            MatchDecision::Matched => String::from_str("'").concat(file).concat(
                "' would MATCH this rule.",
            ),
            MatchDecision::Ignored { reason } => String::from_str("'").concat(file).concat(
                "' would be IGNORED: ",
            ).concat(reason.describe().as_str()),
        },
    }
}

/// What the editor's test says of `file` for the rule in the form. Whether
/// the file's path is a directory is asked of the file system, so the message
/// is the one for either answer.
pub fn form_test_message(form: &RuleForm, id: &str, file: &str) -> (res: String)
    ensures
        res@ == form_test_spec(*form, file@, false) || res@ == form_test_spec(*form, file@, true),
{
    let path = join_path(form.path.as_str(), file);
    let is_dir = path_is_dir(path.as_str());
    form_test_message_with(form, id, file, is_dir)
}

/// A saved rule, shown again in the editor, gives back what the form held:
/// the name, folder, mask and program as typed, a regex that was not blank,
/// and every checkbox (enabled, include subdirectories, wait until stable).
pub proof fn lemma_saved_rule_shows_form(form: RuleForm, id: Seq<char>, r: WatchRule, shown: RuleForm)
    requires
        saved_rule(form, id, r),
        shows_rule(r, shown),
    ensures
        shown.name@ == form.name@,
        shown.path@ == form.path@,
        shown.mask@ == form.mask@,
        shown.executable@ == form.executable@,
        !is_blank_spec(form.regex@) ==> shown.regex@ == form.regex@,
        shown.enabled == form.enabled,
        shown.include_subdirectories == form.include_subdirectories,
        shown.wait_until_stable == form.wait_until_stable,
        r.enabled == form.enabled,
        r.include_subdirectories == form.include_subdirectories,
        r.wait_until_stable == form.wait_until_stable,
{
}

} // verus!
