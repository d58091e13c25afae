//! Deciding whether a rule takes a file. Glob and regex matching are done by
//! the `globset` and `regex` crates; the names below stand for their answers.
use vstd::prelude::*;
use crate::error::{CoreError, ErrorView};
use crate::paths::{parent_of, path_is_dir, path_parent, path_starts_with, paths_equal, same_path, starts_with_path};
use crate::text::opt_view;
use crate::types::{DecisionView, FileCandidate, IgnoreReason, MatchDecision, ReasonView, WatchRule};

verus! {

/// What `globset::Glob::new` makes of a pattern: `Ok` when it compiles,
/// otherwise the text of its error.
pub uninterp spec fn glob_parse(pattern: Seq<char>) -> Result<(), Seq<char>>;

/// What building the compiled matcher's regex from a valid pattern gives:
/// `Ok` when it builds, otherwise the text of the build error. (globset's
/// `Glob::compile_matcher` panics when this is an error.)
pub uninterp spec fn glob_compile(pattern: Seq<char>) -> Result<(), Seq<char>>;

/// What the matcher compiled from a pattern answers for a path.
pub uninterp spec fn glob_matches(pattern: Seq<char>, path: Seq<char>) -> bool;

/// What `regex::Regex::new` makes of a pattern: `Ok` when it compiles,
/// otherwise the text of its error.
pub uninterp spec fn regex_parse(pattern: Seq<char>) -> Result<(), Seq<char>>;

/// What the regex compiled from a pattern answers for a text.
pub uninterp spec fn regex_matches(pattern: Seq<char>, text: Seq<char>) -> bool;

/// Calls `globset::Glob::new`. Claimed: `Ok` exactly when the named
/// `glob_parse` is `Ok`, and otherwise the error's text is the one it names.
#[verifier::external_body]
pub fn validate_glob(pattern: &str) -> (res: Result<(), String>)
    ensures
        match res {
            Ok(_) => glob_parse(pattern@) is Ok,
            Err(e) => glob_parse(pattern@) == Err::<(), Seq<char>>(e@),
        },
{
    match globset::Glob::new(pattern) {
        Ok(_) => Ok(()),
        Err(e) => Err(e.to_string()),
    }
}

/// Calls `regex::Regex::new`. Claimed: `Ok` exactly when the named
/// `regex_parse` is `Ok`, and otherwise the error's text is the one it names.
#[verifier::external_body]
pub fn validate_regex(pattern: &str) -> (res: Result<(), String>)
    ensures
        match res {
            Ok(_) => regex_parse(pattern@) is Ok,
            Err(e) => regex_parse(pattern@) == Err::<(), Seq<char>>(e@),
        },
{
    match regex::Regex::new(pattern) {
        Ok(_) => Ok(()),
        Err(e) => Err(e.to_string()),
    }
}

/// Parses `pattern` with `globset::Glob::new` and builds the regex that
/// `Glob::compile_matcher` would build from `Glob::regex()`, without
/// panicking when it does not build. globset builds it (glob.rs `new_regex`)
/// as a `regex_automata::meta::Regex` with the default syntax settings plus
/// `utf8(false)` and `dot_matches_new_line(true)`, and the default settings
/// plus `utf8_empty(false)`, an NFA size limit of 10 MiB and a lazy-DFA cache
/// of 10 MiB. `regex::bytes::RegexBuilder` builds the same `meta::Regex`
/// (builders.rs `build_one_bytes`): it sets `utf8(false)` and
/// `utf8_empty(false)`, its default NFA size limit is 10 MiB, and the two
/// options below set the rest; both crates use the one `regex-automata`.
/// These are the settings of the versions that Cargo.toml pins (globset
/// 0.4.21, regex 1.13.1): another globset may build its regex otherwise.
/// Claimed: `Ok` exactly when the named `glob_compile` is `Ok`, and otherwise
/// the error's text is the one it names.
#[verifier::external_body]
fn check_glob_compiles(pattern: &str) -> (res: Result<(), String>)
    requires
        glob_parse(pattern@) is Ok,
    ensures
        match res {
            Ok(_) => glob_compile(pattern@) is Ok,
            Err(e) => glob_compile(pattern@) == Err::<(), Seq<char>>(e@),
        },
{
    match globset::Glob::new(pattern) {
        Ok(g) => match regex::bytes::RegexBuilder::new(g.regex())
            .dot_matches_new_line(true)
            .dfa_size_limit(10 * (1 << 20))
            .build() {
            Ok(_) => Ok(()),
            Err(e) => Err(e.to_string()),
        },
        Err(e) => Err(e.to_string()),
    }
}

/// Compiles `pattern` with `globset::Glob::new` and
/// `Glob::compile_matcher`, and asks `GlobMatcher::is_match` about `path`.
/// Claimed: the answer is the named `glob_matches`. `compile_matcher`
/// panics only when its regex does not build, which `requires` leaves out.
#[verifier::external_body]
fn glob_is_match(pattern: &str, path: &str) -> (res: bool)
    requires
        glob_parse(pattern@) is Ok,
        glob_compile(pattern@) is Ok,
    ensures
        res == glob_matches(pattern@, path@),
{
    match globset::Glob::new(pattern) {
        Ok(g) => g.compile_matcher().is_match(path),
        Err(_) => false,
    }
}

/// Compiles `pattern` with `regex::Regex::new` and asks `Regex::is_match`
/// about `text`. Claimed: the answer is the named `regex_matches`.
#[verifier::external_body]
fn regex_is_match(pattern: &str, text: &str) -> (res: bool)
    requires
        regex_parse(pattern@) is Ok,
    ensures
        res == regex_matches(pattern@, text@),
{
    match regex::Regex::new(pattern) {
        Ok(r) => r.is_match(text),
        Err(_) => false,
    }
}

/// File names that every rule passes over, as glob patterns.
pub open spec fn default_ignore_patterns() -> Seq<Seq<char>> {
    seq!["*.tmp"@, "*.part"@, "*.crdownload"@, "*.download"@, "~*"@, "*.swp"@]
}

/// The default ignore patterns, in order.
pub fn default_ignore_pattern_list() -> (v: Vec<String>)
    ensures
        v.deep_view() == default_ignore_patterns(),
{
    let mut v: Vec<String> = Vec::new();
    v.push(String::from_str("*.tmp"));
    v.push(String::from_str("*.part"));
    v.push(String::from_str("*.crdownload"));
    v.push(String::from_str("*.download"));
    v.push(String::from_str("~*"));
    v.push(String::from_str("*.swp"));
    assert(v.deep_view() =~= default_ignore_patterns());
    v
}

/// A compiled rule, as the patterns it was compiled from.
pub struct MatcherView {
    pub mask: Seq<char>,
    pub regex: Option<Seq<char>>,
    pub ignore: Seq<Seq<char>>,
}

/// A rule's patterns, checked to compile. The patterns are compiled again by
/// their crates on each question asked of them.
#[derive(Debug)]
pub struct RuleMatcher {
    mask: String,
    regex: Option<String>,
    ignore_patterns: Vec<String>,
}

/// The first pattern among `pats` that is not a valid glob, or whose matcher
/// does not build, with its error.
pub open spec fn first_invalid_glob(pats: Seq<Seq<char>>) -> Option<(Seq<char>, Seq<char>)>
    decreases pats.len(),
{
    if pats.len() == 0 {
        None
    } else {
        match glob_parse(pats[0]) {
            Err(e) => Some((pats[0], e)),
            Ok(_) => match glob_compile(pats[0]) {
                Err(e) => Some((pats[0], e)),
                Ok(_) => first_invalid_glob(pats.skip(1)),
            },
        }
    }
}

/// The message for a default ignore pattern that does not compile.
pub open spec fn builtin_pattern_error(pattern: Seq<char>, error: Seq<char>) -> Seq<char> {
    "built-in ignore pattern \""@ + pattern + "\": "@ + error
}

/// What compiling a rule with the given mask and regex gives.
pub open spec fn compile_spec(mask: Seq<char>, regex: Option<Seq<char>>) -> Result<MatcherView, ErrorView> {
    match glob_parse(mask) {
        Err(e) => Err(ErrorView::InvalidGlob(e)),
        Ok(_) => if glob_compile(mask) is Err {
            Err(ErrorView::InvalidGlob(glob_compile(mask)->Err_0))
        } else {
            let regex_error = match regex {
                Some(r) => match regex_parse(r) {
                    Err(e) => Some(e),
                    Ok(_) => None,
                },
                None => None,
            };
            match regex_error {
                Some(e) => Err(ErrorView::InvalidRegex(e)),
                None => match first_invalid_glob(default_ignore_patterns()) {
                    Some((p, e)) => Err(ErrorView::InvalidGlob(builtin_pattern_error(p, e))),
                    None => Ok(MatcherView { mask, regex, ignore: default_ignore_patterns() }),
                },
            }
        },
    }
}

/// The first pattern among `pats` that matches the file name.
pub open spec fn first_ignored(pats: Seq<Seq<char>>, name: Seq<char>) -> Option<Seq<char>>
    decreases pats.len(),
{
    if pats.len() == 0 {
        None
    } else if glob_matches(pats[0], name) {
        Some(pats[0])
    } else {
        first_ignored(pats.skip(1), name)
    }
}

/// Whether `path` lies in the rule's folder: directly in it, or anywhere
/// below it when the rule includes subdirectories.
pub open spec fn in_folder(include_subdirectories: bool, folder: Seq<char>, path: Seq<char>) -> bool {
    if include_subdirectories {
        path_starts_with(path, folder)
    } else {
        match path_parent(path) {
            Some(p) => paths_equal(p, folder),
            None => false,
        }
    }
}

/// The decision of a compiled rule, enabled or not, watching `folder` (and
/// below it or not), on a file at `path` named `name`, given whether the path
/// is a directory. The checks come in this order, and the first that fails
/// decides: the rule is enabled, the file is in its folder, it is not a
/// directory, its name matches no default ignore pattern, it matches the mask,
/// it matches the regex.
pub open spec fn decision_on(
    m: MatcherView,
    enabled: bool,
    include_subdirectories: bool,
    folder: Seq<char>,
    path: Seq<char>,
    name: Seq<char>,
    is_dir: bool,
) -> DecisionView {
    if !enabled {
        DecisionView::Ignored(ReasonView::RuleDisabled)
    } else if !in_folder(include_subdirectories, folder, path) {
        DecisionView::Ignored(ReasonView::NotInFolder)
    } else if is_dir {
        DecisionView::Ignored(ReasonView::IsDirectory)
    } else {
        match first_ignored(m.ignore, name) {
            Some(p) => DecisionView::Ignored(ReasonView::DefaultIgnorePattern(p)),
            None => if !glob_matches(m.mask, name) {
                DecisionView::Ignored(ReasonView::MaskNotMatched)
            } else {
                match m.regex {
                    Some(r) => if !regex_matches(r, name) {
                        DecisionView::Ignored(ReasonView::RegexNotMatched)
                    } else {
                        DecisionView::Matched
                    },
                    None => DecisionView::Matched,
                }
            },
        }
    }
}

/// The decision on a candidate, given whether its path is a directory.
pub open spec fn decision(m: MatcherView, rule: WatchRule, candidate: FileCandidate, is_dir: bool) -> DecisionView {
    decision_on(
        m,
        rule.enabled,
        rule.include_subdirectories,
        rule.path@,
        candidate.path@,
        candidate.file_name@,
        is_dir,
    )
}

/// When no pattern among `pats` matches a name, none of them matches it.
pub proof fn lemma_first_ignored_none(pats: Seq<Seq<char>>, name: Seq<char>)
    ensures
        first_ignored(pats, name) is None <==> forall|i: int|
            0 <= i < pats.len() ==> !glob_matches(#[trigger] pats[i], name),
    decreases pats.len(),
{
    if pats.len() > 0 {
        lemma_first_ignored_none(pats.skip(1), name);
        assert forall|i: int| 1 <= i < pats.len() implies pats.skip(1)[i - 1] == #[trigger] pats[i] by {}
        if first_ignored(pats, name) is None {
            assert forall|i: int| 0 <= i < pats.len() implies !glob_matches(#[trigger] pats[i], name) by {
                if i > 0 {
                    assert(pats.skip(1)[i - 1] == pats[i]);
                }
            }
        }
    }
}

/// A rule takes a file only when every check passes: the rule is enabled,
/// the file is in its folder and is not a directory, its name matches none of
/// the default ignore patterns, it matches the mask, and it matches the regex
/// when there is one.
pub proof fn lemma_matched_passes_every_check(
    m: MatcherView,
    enabled: bool,
    include_subdirectories: bool,
    folder: Seq<char>,
    path: Seq<char>,
    name: Seq<char>,
    is_dir: bool,
)
    ensures
        decision_on(m, enabled, include_subdirectories, folder, path, name, is_dir)
            == DecisionView::Matched <==> {
            &&& enabled
            &&& in_folder(include_subdirectories, folder, path)
            &&& !is_dir
            &&& forall|i: int| 0 <= i < m.ignore.len() ==> !glob_matches(#[trigger] m.ignore[i], name)
            &&& glob_matches(m.mask, name)
            &&& match m.regex {
                Some(r) => regex_matches(r, name),
                None => true,
            }
        },
{
    lemma_first_ignored_none(m.ignore, name);
}

/// A file whose name matches a default ignore pattern is passed over by
/// every compiled rule, whatever its mask and regex.
pub proof fn lemma_default_ignore_wins(
    mask: Seq<char>,
    regex: Option<Seq<char>>,
    m: MatcherView,
    enabled: bool,
    include_subdirectories: bool,
    folder: Seq<char>,
    path: Seq<char>,
    name: Seq<char>,
    is_dir: bool,
    k: int,
)
    requires
        compile_spec(mask, regex) == Ok::<MatcherView, ErrorView>(m),
        0 <= k < default_ignore_patterns().len(),
        glob_matches(default_ignore_patterns()[k], name),
    ensures
        decision_on(m, enabled, include_subdirectories, folder, path, name, is_dir)
            != DecisionView::Matched,
{
    lemma_first_ignored_none(m.ignore, name);
}

impl View for RuleMatcher {
    type V = MatcherView;

    closed spec fn view(&self) -> MatcherView {
        MatcherView {
            mask: self.mask@,
            regex: opt_view(self.regex),
            ignore: self.ignore_patterns.deep_view(),
        }
    }
}

impl RuleMatcher {
    #[verifier::type_invariant]
    spec fn well_formed(self) -> bool {
        &&& glob_parse(self.mask@) is Ok
        &&& glob_compile(self.mask@) is Ok
        &&& match self.regex {
            Some(r) => regex_parse(r@) is Ok,
            None => true,
        }
        &&& forall|i: int|
            0 <= i < self.ignore_patterns@.len() ==> glob_parse(
                #[trigger] self.ignore_patterns@[i]@,
            ) is Ok && glob_compile(self.ignore_patterns@[i]@) is Ok
    }

    /// Compiles a rule: its mask, its regex if any, and the default ignore
    /// patterns, and fails with the first that does not compile. A glob
    /// whose matcher would not build is refused as an invalid glob.
    pub fn new(rule: &WatchRule) -> (res: Result<RuleMatcher, CoreError>)
        ensures
            match res {
                Ok(m) => compile_spec(rule.file_mask@, opt_view(rule.regex)) == Ok::<
                    MatcherView,
                    ErrorView,
                >(m@),
                Err(e) => compile_spec(rule.file_mask@, opt_view(rule.regex)) == Err::<
                    MatcherView,
                    ErrorView,
                >(e@),
            },
    {
        match validate_glob(rule.file_mask.as_str()) {
            Err(e) => {
                return Err(CoreError::InvalidGlob(e));
            },
            Ok(_) => {},
        }
        match check_glob_compiles(rule.file_mask.as_str()) {
            Err(e) => {
                return Err(CoreError::InvalidGlob(e));
            },
            Ok(_) => {},
        }
        match &rule.regex {
            Some(r) => match validate_regex(r.as_str()) {
                Err(e) => {
                    return Err(CoreError::InvalidRegex(e));
                },
                Ok(_) => {},
            },
            None => {},
        }
        let ignore_patterns = default_ignore_pattern_list();
        let n: usize = ignore_patterns.len();
        let ghost pats = ignore_patterns.deep_view();
        let mut i: usize = 0;
        assert(pats.skip(0) =~= pats);
        while i < n
            invariant
                n == pats.len(),
                pats == ignore_patterns.deep_view(),
                pats == default_ignore_patterns(),
                glob_parse(rule.file_mask@) is Ok,
                glob_compile(rule.file_mask@) is Ok,
                match rule.regex {
                    Some(r) => regex_parse(r@) is Ok,
                    None => true,
                },
                i <= n,
                first_invalid_glob(pats) == first_invalid_glob(pats.skip(i as int)),
                forall|k: int|
                    0 <= k < i ==> glob_parse(#[trigger] pats[k]) is Ok && glob_compile(pats[k]) is Ok,
            decreases n - i,
        {
            assert(pats.skip(i as int).skip(1) =~= pats.skip(i + 1));
            assert(pats.skip(i as int)[0] == pats[i as int]);
            let checked = match validate_glob(ignore_patterns[i].as_str()) {
                Err(e) => Err(e),
                Ok(_) => check_glob_compiles(ignore_patterns[i].as_str()),
            };
            match checked {
                Err(e) => {
                    assert(first_invalid_glob(pats.skip(i as int)) == Some((pats[i as int], e@)));
                    let msg = String::from_str("built-in ignore pattern \"").concat(
                        ignore_patterns[i].as_str(),
                    ).concat("\": ").concat(e.as_str());
                    return Err(CoreError::InvalidGlob(msg));
                },
                Ok(_) => {},
            }
            i = i + 1;
        }
        assert(pats.skip(n as int).len() == 0);
        let regex = match &rule.regex {
            Some(r) => Some(r.clone()),
            None => None,
        };
        let m = RuleMatcher { mask: rule.file_mask.clone(), regex, ignore_patterns };
        Ok(m)
    }

    /// The decision on a candidate, given whether its path is a directory.
    pub fn decide_with(&self, rule: &WatchRule, candidate: &FileCandidate, is_dir: bool) -> (res:
        MatchDecision)
        ensures
            res@ == decision(self@, *rule, *candidate, is_dir),
    {
        proof {
            use_type_invariant(self);
        }
        if !rule.enabled {
            return MatchDecision::Ignored { reason: IgnoreReason::RuleDisabled };
        }
        let folder_ok = if rule.include_subdirectories {
            starts_with_path(candidate.path.as_str(), rule.path.as_str())
        } else {
            match parent_of(candidate.path.as_str()) {
                Some(p) => same_path(p.as_str(), rule.path.as_str()),
                None => false,
            }
        };
        if !folder_ok {
            return MatchDecision::Ignored { reason: IgnoreReason::NotInFolder };
        }
        if is_dir {
            return MatchDecision::Ignored { reason: IgnoreReason::IsDirectory };
        }
        let name = candidate.file_name.as_str();
        let n: usize = self.ignore_patterns.len();
        let ghost pats = self.ignore_patterns.deep_view();
        let mut i: usize = 0;
        assert(pats.skip(0) =~= pats);
        while i < n
            invariant
                n == pats.len(),
                pats == self.ignore_patterns.deep_view(),
                rule.enabled,
                in_folder(rule.include_subdirectories, rule.path@, candidate.path@),
                !is_dir,
                name@ == candidate.file_name@,
                i <= n,
                first_ignored(pats, name@) == first_ignored(pats.skip(i as int), name@),
                forall|k: int|
                    0 <= k < self.ignore_patterns@.len() ==> glob_parse(
                        #[trigger] self.ignore_patterns@[k]@,
                    ) is Ok && glob_compile(self.ignore_patterns@[k]@) is Ok,
            decreases n - i,
        {
            assert(pats.skip(i as int).skip(1) =~= pats.skip(i + 1));
            assert(pats.skip(i as int)[0] == pats[i as int]);
            assert(pats[i as int] == self.ignore_patterns@[i as int]@);
            if glob_is_match(self.ignore_patterns[i].as_str(), name) {
                assert(first_ignored(pats.skip(i as int), name@) == Some(pats[i as int]));
                let pattern = self.ignore_patterns[i].clone();
                return MatchDecision::Ignored {
                    reason: IgnoreReason::DefaultIgnorePattern { pattern },
                };
            }
            i = i + 1;
        }
        assert(pats.skip(n as int).len() == 0);
        if !glob_is_match(self.mask.as_str(), name) {
            return MatchDecision::Ignored { reason: IgnoreReason::MaskNotMatched };
        }
        match &self.regex {
            Some(r) => {
                if !regex_is_match(r.as_str(), name) {
                    return MatchDecision::Ignored { reason: IgnoreReason::RegexNotMatched };
                }
            },
            None => {},
        }
        MatchDecision::Matched
    }

    /// The decision on a candidate. Whether its path is a directory is asked
    /// of the file system, so the decision is the one for either answer.
    pub fn decide(&self, rule: &WatchRule, candidate: &FileCandidate) -> (res: MatchDecision)
        ensures
            res@ == decision(self@, *rule, *candidate, false) || res@ == decision(
                self@,
                *rule,
                *candidate,
                true,
            ),
    {
        let is_dir = path_is_dir(candidate.path.as_str());
        self.decide_with(rule, candidate, is_dir)
    }
}

/// A rule that includes subdirectories finds in its folder exactly the paths
/// that start with the folder, files directly in the folder among them; a
/// rule that does not finds there exactly the paths whose parent is the
/// folder. Only then, for an enabled rule, is a file passed over as not in
/// the folder.
pub proof fn lemma_folder_check(
    m: MatcherView,
    folder: Seq<char>,
    path: Seq<char>,
    name: Seq<char>,
    is_dir: bool,
)
    ensures
        in_folder(true, folder, path) == path_starts_with(path, folder),
        in_folder(false, folder, path) == (path_parent(path) is Some && paths_equal(
            path_parent(path)->Some_0,
            folder,
        )),
        (decision_on(m, true, true, folder, path, name, is_dir) == DecisionView::Ignored(
            ReasonView::NotInFolder,
        )) <==> !path_starts_with(path, folder),
        (decision_on(m, true, false, folder, path, name, is_dir) == DecisionView::Ignored(
            ReasonView::NotInFolder,
        )) <==> !(path_parent(path) is Some && paths_equal(path_parent(path)->Some_0, folder)),
{
}

} // verus!
