//! Checking that a rule is usable before it is watched.
use vstd::prelude::*;
use crate::error::{CoreError, ErrorView};
use crate::matching::{glob_parse, regex_parse, validate_glob, validate_regex};
use crate::text::{is_blank, is_blank_spec};
use crate::types::WatchRule;

verus! {

/// The first problem with a rule, in the order the checks are made, or `None`
/// when it is usable: a blank name, a blank mask, a mask that is not a valid
/// glob, a regex that does not compile, a stability count of zero.
pub open spec fn rule_problem(rule: WatchRule) -> Option<ErrorView> {
    if is_blank_spec(rule.name@) {
        Some(ErrorView::Validation("Rule name cannot be empty"@))
    } else if is_blank_spec(rule.file_mask@) {
        Some(ErrorView::Validation("File mask cannot be empty"@))
    } else if glob_parse(rule.file_mask@) is Err {
        Some(ErrorView::Validation("Invalid file mask: "@ + glob_parse(rule.file_mask@)->Err_0))
    } else if rule.regex is Some && regex_parse(rule.regex->0@) is Err {
        Some(ErrorView::Validation("Invalid regex: "@ + regex_parse(rule.regex->0@)->Err_0))
    } else if rule.stable_checks_count == 0 {
        Some(ErrorView::Validation("stable_checks_count must be > 0"@))
    } else {
        None
    }
}

/// Checks a rule, and names its first problem.
pub fn validate_rule(rule: &WatchRule) -> (res: Result<(), CoreError>)
    ensures
        match res {
            Ok(_) => rule_problem(*rule) is None,
            Err(e) => rule_problem(*rule) == Some(e@),
        },
{
    if is_blank(rule.name.as_str()) {
        return Err(CoreError::Validation(String::from_str("Rule name cannot be empty")));
    }
    if is_blank(rule.file_mask.as_str()) {
        return Err(CoreError::Validation(String::from_str("File mask cannot be empty")));
    }
    match validate_glob(rule.file_mask.as_str()) {
        Err(e) => {
            return Err(
                CoreError::Validation(String::from_str("Invalid file mask: ").concat(e.as_str())),
            );
        },
        Ok(_) => {},
    }
    match &rule.regex {
        Some(pattern) => match validate_regex(pattern.as_str()) {
            Err(e) => {
                return Err(
                    CoreError::Validation(String::from_str("Invalid regex: ").concat(e.as_str())),
                );
            },
            Ok(_) => {},
        },
        None => {},
    }
    if rule.stable_checks_count == 0 {
        return Err(CoreError::Validation(String::from_str("stable_checks_count must be > 0")));
    }
    Ok(())
}

} // verus!
