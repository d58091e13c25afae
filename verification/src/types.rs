//! The domain types: rules, actions, candidate files, decisions and events.
use vstd::prelude::*;
use crate::paths::{file_name_of, path_file_name};

verus! {

/// One folder-watching rule.
#[derive(Debug, Clone)]
pub struct WatchRule {
    pub id: String,
    pub name: String,
    pub enabled: bool,
    pub path: String,
    pub include_subdirectories: bool,
    pub file_mask: String,
    pub regex: Option<String>,
    pub action: ActionTemplate,
    pub debounce_ms: u64,
    pub wait_until_stable: bool,
    pub stable_check_ms: u64,
    pub stable_checks_count: u32,
    pub ready_timeout_sec: u64,
}

/// The program to launch for a ready file, with argument templates.
#[derive(Debug, Clone)]
pub struct ActionTemplate {
    pub executable: String,
    pub arguments: Vec<String>,
}

/// A file that a rule is asked about.
#[derive(Debug, Clone)]
pub struct FileCandidate {
    pub path: String,
    pub file_name: String,
    pub size: Option<u64>,
}

/// Why a rule passed a file over.
#[derive(Debug, Clone)]
pub enum IgnoreReason {
    RuleDisabled,
    NotInFolder,
    IsDirectory,
    MaskNotMatched,
    RegexNotMatched,
    DefaultIgnorePattern { pattern: String },
}

/// Whether a rule takes a file.
#[derive(Debug, Clone)]
pub enum MatchDecision {
    Matched,
    Ignored { reason: IgnoreReason },
}

/// What the watcher reports as it works.
#[derive(Debug, Clone)]
pub enum AppEvent {
    RuleStarted { rule_id: String },
    RuleStopped { rule_id: String },
    FileDetected { rule_id: String, path: String },
    FileIgnored { rule_id: String, path: String, reason: String },
    FileMatched { rule_id: String, path: String },
    FileReady { rule_id: String, path: String },
    ActionStarted { rule_id: String, executable: String, arguments: Vec<String> },
    ActionCompleted { rule_id: String, path: String },
    ActionFailed { rule_id: String, path: String, error: String },
    Warning { message: String },
    Error { message: String },
}

/// An ignore reason as a mathematical value.
pub enum ReasonView {
    RuleDisabled,
    NotInFolder,
    IsDirectory,
    MaskNotMatched,
    RegexNotMatched,
    DefaultIgnorePattern(Seq<char>),
}

/// A decision as a mathematical value.
pub enum DecisionView {
    Matched,
    Ignored(ReasonView),
}

/// An event as a mathematical value.
pub enum EventView {
    RuleStarted(Seq<char>),
    RuleStopped(Seq<char>),
    FileDetected(Seq<char>, Seq<char>),
    FileIgnored(Seq<char>, Seq<char>, Seq<char>),
    FileMatched(Seq<char>, Seq<char>),
    FileReady(Seq<char>, Seq<char>),
    ActionStarted(Seq<char>, Seq<char>, Seq<Seq<char>>),
    ActionCompleted(Seq<char>, Seq<char>),
    ActionFailed(Seq<char>, Seq<char>, Seq<char>),
    Warning(Seq<char>),
    Error(Seq<char>),
}

impl View for IgnoreReason {
    type V = ReasonView;

    open spec fn view(&self) -> ReasonView {
        match self {
            IgnoreReason::RuleDisabled => ReasonView::RuleDisabled,
            IgnoreReason::NotInFolder => ReasonView::NotInFolder,
            IgnoreReason::IsDirectory => ReasonView::IsDirectory,
            IgnoreReason::MaskNotMatched => ReasonView::MaskNotMatched,
            IgnoreReason::RegexNotMatched => ReasonView::RegexNotMatched,
            IgnoreReason::DefaultIgnorePattern { pattern } => ReasonView::DefaultIgnorePattern(
                pattern@,
            ),
        }
    }
}

impl View for MatchDecision {
    type V = DecisionView;

    open spec fn view(&self) -> DecisionView {
        match self {
            MatchDecision::Matched => DecisionView::Matched,
            MatchDecision::Ignored { reason } => DecisionView::Ignored(reason@),
        }
    }
}

impl View for AppEvent {
    type V = EventView;

    open spec fn view(&self) -> EventView {
        match self {
            AppEvent::RuleStarted { rule_id } => EventView::RuleStarted(rule_id@),
            AppEvent::RuleStopped { rule_id } => EventView::RuleStopped(rule_id@),
            AppEvent::FileDetected { rule_id, path } => EventView::FileDetected(rule_id@, path@),
            AppEvent::FileIgnored { rule_id, path, reason } => EventView::FileIgnored(
                rule_id@,
                path@,
                reason@,
            ),
            AppEvent::FileMatched { rule_id, path } => EventView::FileMatched(rule_id@, path@),
            AppEvent::FileReady { rule_id, path } => EventView::FileReady(rule_id@, path@),
            AppEvent::ActionStarted { rule_id, executable, arguments } => EventView::ActionStarted(
                rule_id@,
                executable@,
                arguments.deep_view(),
            ),
            AppEvent::ActionCompleted { rule_id, path } => EventView::ActionCompleted(
                rule_id@,
                path@,
            ),
            AppEvent::ActionFailed { rule_id, path, error } => EventView::ActionFailed(
                rule_id@,
                path@,
                error@,
            ),
            AppEvent::Warning { message } => EventView::Warning(message@),
            AppEvent::Error { message } => EventView::Error(message@),
        }
    }
}

/// The events of a sequence, as mathematical values.
pub open spec fn events_view(events: Seq<AppEvent>) -> Seq<EventView> {
    events.map_values(|e: AppEvent| e@)
}

/// The text that describes an ignore reason to a person.
pub open spec fn reason_text(r: ReasonView) -> Seq<char> {
    match r {
        ReasonView::RuleDisabled => "rule is disabled"@,
        ReasonView::NotInFolder => "not in watched folder"@,
        ReasonView::IsDirectory => "is a directory"@,
        ReasonView::MaskNotMatched => "file mask not matched"@,
        ReasonView::RegexNotMatched => "regex not matched"@,
        ReasonView::DefaultIgnorePattern(p) => "matches ignore pattern: "@ + p,
    }
}

impl IgnoreReason {
    /// The text that describes this reason to a person.
    pub fn describe(&self) -> (res: String)
        ensures
            res@ == reason_text(self@),
    {
        match self {
            IgnoreReason::RuleDisabled => String::from_str("rule is disabled"),
            IgnoreReason::NotInFolder => String::from_str("not in watched folder"),
            IgnoreReason::IsDirectory => String::from_str("is a directory"),
            IgnoreReason::MaskNotMatched => String::from_str("file mask not matched"),
            IgnoreReason::RegexNotMatched => String::from_str("regex not matched"),
            IgnoreReason::DefaultIgnorePattern { pattern } => String::from_str(
                "matches ignore pattern: ",
            ).concat(pattern.as_str()),
        }
    }
}

/// The settings that a new rule starts with, besides its name and id.
pub open spec fn has_default_settings(r: WatchRule) -> bool {
    &&& r.enabled
    &&& r.path@ == "."@
    &&& !r.include_subdirectories
    &&& r.file_mask@ == "*"@
    &&& r.regex is None
    &&& r.action.executable@ == Seq::<char>::empty()
    &&& r.action.arguments.deep_view() == seq!["{file}"@]
    &&& r.debounce_ms == 1000
    &&& r.wait_until_stable
    &&& r.stable_check_ms == 300
    &&& r.stable_checks_count == 3
    &&& r.ready_timeout_sec == 30
}

/// Whether `c` is a lowercase hexadecimal digit.
pub open spec fn is_lower_hex(c: char) -> bool {
    ('0' <= c <= '9') || ('a' <= c <= 'f')
}

/// Whether `s` is the text of a random (version 4) UUID: 36 characters,
/// hyphens at 8, 13, 18 and 23, lowercase hexadecimal digits elsewhere, the
/// version digit `4` at 14 and a variant digit among `8`, `9`, `a`, `b` at 19.
pub open spec fn is_v4_uuid_text(s: Seq<char>) -> bool {
    &&& s.len() == 36
    &&& forall|i: int|
        0 <= i < 36 ==> if i == 8 || i == 13 || i == 18 || i == 23 {
            #[trigger] s[i] == '-'
        } else {
            is_lower_hex(s[i])
        }
    &&& s[14] == '4'
    &&& (s[19] == '8' || s[19] == '9' || s[19] == 'a' || s[19] == 'b')
}

/// Calls `uuid::Uuid::new_v4` and renders the id with `Display`. Claimed:
/// the text has the shape of a version 4 UUID, as `new_v4` sets the version
/// and variant bits (v4.rs) and `Display` writes the lowercase hyphenated
/// form (fmt.rs `format_hyphenated`). Which id comes out is random and is not
/// claimed. `new_v4` panics only when the operating system gives no random
/// bytes, which no argument can prevent.
#[verifier::external_body]
fn new_rule_id() -> (res: String)
    ensures
        is_v4_uuid_text(res@),
{
    uuid::Uuid::new_v4().to_string()
}

impl WatchRule {
    /// A new enabled rule with the given name, a fresh random id, and the
    /// default settings: every file (`*`) in `.`, opened with `{file}`.
    pub fn new_default(name: &str) -> (r: WatchRule)
        ensures
            r.name@ == name@,
            is_v4_uuid_text(r.id@),
            has_default_settings(r),
    {
        let mut arguments: Vec<String> = Vec::new();
        arguments.push(String::from_str("{file}"));
        let r = WatchRule {
            id: new_rule_id(),
            name: String::from_str(name),
            enabled: true,
            path: String::from_str("."),
            include_subdirectories: false,
            file_mask: String::from_str("*"),
            regex: None,
            action: ActionTemplate { executable: String::new(), arguments },
            debounce_ms: 1000,
            wait_until_stable: true,
            stable_check_ms: 300,
            stable_checks_count: 3,
            ready_timeout_sec: 30,
        };
        assert(r.action.arguments.deep_view() =~= seq!["{file}"@]);
        r
    }
}

impl FileCandidate {
    /// The candidate for a file at `path` whose size was measured as `size`
    /// (`None` when it could not be read); its name is the path's final
    /// component, or empty when the path has none.
    pub fn from_path(path: String, size: Option<u64>) -> (c: FileCandidate)
        ensures
            c.path@ == path@,
            c.size == size,
            c.file_name@ == (match path_file_name(path@) {
                Some(n) => n,
                None => Seq::<char>::empty(),
            }),
    {
        let file_name = match file_name_of(path.as_str()) {
            Some(n) => n,
            None => String::new(),
        };
        FileCandidate { path, file_name, size }
    }
}

} // verus!
