//! The configuration: a versioned list of rules.
use vstd::prelude::*;
use crate::error::{core_error_text, ErrorView};
use crate::types::WatchRule;
use crate::matching::{compile_spec, default_ignore_patterns, first_invalid_glob, glob_compile};
use crate::text::opt_view;
use crate::validation::{rule_problem, validate_rule};

verus! {

/// The whole configuration.
#[derive(Debug, Clone)]
pub struct AppConfig {
    pub version: u32,
    pub rules: Vec<WatchRule>,
}

impl Default for AppConfig {
    /// Version 1, with no rules.
    fn default() -> (res: AppConfig)
        ensures
            res.version == 1,
            res.rules@.len() == 0,
    {
        AppConfig { version: 1, rules: Vec::new() }
    }
}

/// Brings a configuration that was read to the current version. Every version
/// so far reads as it is.
pub fn migrate(config: AppConfig) -> (res: AppConfig)
    ensures
        res == config,
{
    config
}

/// The report line for a rule with a problem.
pub open spec fn rule_error_line(name: Seq<char>, e: ErrorView) -> Seq<char> {
    "Rule '"@ + name + "': "@ + core_error_text(e)
}

/// One report line for each rule that has a problem, in the order of the rules.
pub open spec fn config_errors(rules: Seq<WatchRule>) -> Seq<Seq<char>>
    decreases rules.len(),
{
    if rules.len() == 0 {
        Seq::<Seq<char>>::empty()
    } else {
        let before = config_errors(rules.drop_last());
        match rule_problem(rules.last()) {
            Some(e) => before.push(rule_error_line(rules.last().name@, e)),
            None => before,
        }
    }
}

/// Checks every rule of a configuration and reports each one with a problem.
/// The check itself always succeeds.
pub fn validate_config(config: &AppConfig) -> (res: Result<Vec<String>, crate::error::CoreError>)
    ensures
        res matches Ok(errors) && errors.deep_view() == config_errors(config.rules@),
{
    let n: usize = config.rules.len();
    let mut errors: Vec<String> = Vec::new();
    let mut i: usize = 0;
    while i < n
        invariant
            n == config.rules@.len(),
            i <= n,
            errors.deep_view() == config_errors(config.rules@.take(i as int)),
        decreases n - i,
    {
        let rule = &config.rules[i];
        assert(config.rules@.take(i + 1).drop_last() =~= config.rules@.take(i as int));
        assert(config.rules@.take(i + 1).last() == config.rules@[i as int]);
        match validate_rule(rule) {
            Err(e) => {
                let line = String::from_str("Rule '").concat(rule.name.as_str()).concat(
                    "': ",
                ).concat(e.to_message().as_str());
                let ghost before = errors.deep_view();
                errors.push(line);
                assert(errors.deep_view() =~= before.push(line@));
            },
            Ok(_) => {},
        }
        i = i + 1;
    }
    assert(config.rules@.take(n as int) =~= config.rules@);
    Ok(errors)
}

/// A configuration is reported valid exactly when every one of its rules
/// passes validation.
pub proof fn lemma_no_errors_iff_all_rules_valid(rules: Seq<WatchRule>)
    ensures
        config_errors(rules).len() == 0 <==> forall|i: int|
            0 <= i < rules.len() ==> #[trigger] rule_problem(rules[i]) is None,
    decreases rules.len(),
{
    if rules.len() > 0 {
        let prev = rules.drop_last();
        lemma_no_errors_iff_all_rules_valid(prev);
        assert forall|i: int| 0 <= i < prev.len() implies #[trigger] prev[i] == rules[i] by {}
        if config_errors(rules).len() == 0 {
            assert forall|i: int| 0 <= i < rules.len() implies #[trigger] rule_problem(rules[i]) is None by {
                if i < prev.len() {
                    assert(prev[i] == rules[i]);
                }
            }
        } else {
            if forall|i: int| 0 <= i < rules.len() ==> #[trigger] rule_problem(rules[i]) is None {
                assert(rule_problem(rules[rules.len() - 1]) is None);
                assert forall|i: int| 0 <= i < prev.len() implies #[trigger] rule_problem(prev[i]) is None by {
                    assert(prev[i] == rules[i]);
                }
            }
        }
    }
}

/// A rule that passes validation compiles into a matcher, provided the
/// matcher of its mask builds and the default ignore patterns compile.
pub proof fn lemma_valid_rule_compiles(rule: WatchRule)
    requires
        rule_problem(rule) is None,
        glob_compile(rule.file_mask@) is Ok,
        first_invalid_glob(default_ignore_patterns()) is None,
    ensures
        compile_spec(rule.file_mask@, opt_view(rule.regex)) is Ok,
{
}

/// The report has one line per rule with a problem, every such rule's own,
/// in the order of the rules, and no other: the rules with a problem, each
/// written as its line.
pub proof fn lemma_every_problem_reported(rules: Seq<WatchRule>)
    ensures
        config_errors(rules) == rules.filter(|r: WatchRule| rule_problem(r) is Some).map_values(
            |r: WatchRule| rule_error_line(r.name@, rule_problem(r)->Some_0),
        ),
    decreases rules.len(),
{
    reveal(Seq::filter);
    let pred = |r: WatchRule| rule_problem(r) is Some;
    let line = |r: WatchRule| rule_error_line(r.name@, rule_problem(r)->Some_0);
    if rules.len() > 0 {
        lemma_every_problem_reported(rules.drop_last());
        let before = rules.drop_last().filter(pred);
        if pred(rules.last()) {
            assert(rules.filter(pred) == before.push(rules.last()));
            assert(before.push(rules.last()).map_values(line) =~= before.map_values(line).push(
                line(rules.last()),
            ));
        } else {
            assert(rules.filter(pred) == before);
        }
    } else {
        assert(rules.filter(pred).map_values(line) =~= Seq::<Seq<char>>::empty());
    }
}

} // verus!
