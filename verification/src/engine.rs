//! The watcher's decisions. The watching itself (the OS notifications, the
//! threads, the sleeping, the processes) is done by the caller, which hands
//! each outcome back to the functions here and performs what they return.
use vstd::prelude::*;
use crate::debounce::DebounceTable;
use crate::error::{CoreError, ErrorView};
use crate::matching::{compile_spec, decision, MatcherView, RuleMatcher};
use crate::runner::{ActionResult, ActionRunner};
use crate::stable::StabilityChecker;
use crate::text::opt_view;
use crate::types::{
    reason_text, AppEvent, DecisionView, EventView, FileCandidate, MatchDecision, WatchRule,
    events_view,
};

verus! {

#[verifier::external_type_specification]
#[verifier::external_body]
#[verifier::reject_recursive_types(T)]
pub struct ExSender<T>(std::sync::mpsc::Sender<T>);

/// Watches the folders of a set of rules and runs their actions.
pub struct WatcherEngine<R: ActionRunner> {
    rules: Vec<WatchRule>,
    action_runner: R,
    event_tx: std::sync::mpsc::Sender<AppEvent>,
}

impl<R: ActionRunner> WatcherEngine<R> {
    /// An engine for `rules`, running actions with `action_runner` and
    /// reporting on `event_tx`.
    pub fn new(rules: Vec<WatchRule>, action_runner: R, event_tx: std::sync::mpsc::Sender<AppEvent>) -> (e:
        WatcherEngine<R>)
        ensures
            e.rules() == rules@,
            e.runner() == action_runner,
            e.channel() == event_tx,
    {
        WatcherEngine { rules, action_runner, event_tx }
    }

    /// The engine's rules.
    pub closed spec fn rules(&self) -> Seq<WatchRule> {
        self.rules@
    }

    /// The engine's runner.
    pub closed spec fn runner(&self) -> R {
        self.action_runner
    }

    /// The channel the engine reports on.
    pub closed spec fn channel(&self) -> std::sync::mpsc::Sender<AppEvent> {
        self.event_tx
    }

    /// Takes the engine apart to run it: its rules, its runner, its channel.
    pub fn into_parts(self) -> (parts: (Vec<WatchRule>, R, std::sync::mpsc::Sender<AppEvent>))
        ensures
            parts.0@ == self.rules(),
            parts.1 == self.runner(),
            parts.2 == self.channel(),
    {
        (self.rules, self.action_runner, self.event_tx)
    }
}

/// A copy of a list of strings.
pub fn copy_strings(v: &Vec<String>) -> (res: Vec<String>)
    ensures
        res.deep_view() == v.deep_view(),
{
    let n: usize = v.len();
    let mut res: Vec<String> = Vec::new();
    let mut i: usize = 0;
    while i < n
        invariant
            n == v@.len(),
            i <= n,
            res.deep_view() == v.deep_view().take(i as int),
        decreases n - i,
    {
        let ghost before = res.deep_view();
        res.push(v[i].clone());
        assert(res.deep_view() =~= before.push(v@[i as int]@));
        assert(v.deep_view().take(i + 1) =~= v.deep_view().take(i as int).push(v@[i as int]@));
        i = i + 1;
    }
    assert(v.deep_view().take(n as int) =~= v.deep_view());
    res
}

/// The folders to watch: each rule's folder, and whether below it too.
pub fn watch_targets(rules: &Vec<WatchRule>) -> (res: Vec<(String, bool)>)
    ensures
        res@.len() == rules@.len(),
        forall|i: int|
            0 <= i < rules@.len() ==> (#[trigger] res@[i]).0@ == rules@[i].path@ && res@[i].1
                == rules@[i].include_subdirectories,
{
    let n: usize = rules.len();
    let mut res: Vec<(String, bool)> = Vec::new();
    let mut i: usize = 0;
    while i < n
        invariant
            n == rules@.len(),
            i <= n,
            res@.len() == i,
            forall|k: int|
                0 <= k < i ==> (#[trigger] res@[k]).0@ == rules@[k].path@ && res@[k].1
                    == rules@[k].include_subdirectories,
        decreases n - i,
    {
        res.push((rules[i].path.clone(), rules[i].include_subdirectories));
        i = i + 1;
    }
    res
}

/// One event per rule, in the order of the rules: that it started watching,
/// or that it stopped.
pub fn lifecycle_events(rules: &Vec<WatchRule>, started: bool) -> (res: Vec<AppEvent>)
    ensures
        res@.len() == rules@.len(),
        forall|i: int|
            0 <= i < rules@.len() ==> (#[trigger] res@[i])@ == (if started {
                EventView::RuleStarted(rules@[i].id@)
            } else {
                EventView::RuleStopped(rules@[i].id@)
            }),
{
    let n: usize = rules.len();
    let mut res: Vec<AppEvent> = Vec::new();
    let mut i: usize = 0;
    while i < n
        invariant
            n == rules@.len(),
            i <= n,
            res@.len() == i,
            forall|k: int|
                0 <= k < i ==> (#[trigger] res@[k])@ == (if started {
                    EventView::RuleStarted(rules@[k].id@)
                } else {
                    EventView::RuleStopped(rules@[k].id@)
                }),
        decreases n - i,
    {
        let rule_id = rules[i].id.clone();
        if started {
            res.push(AppEvent::RuleStarted { rule_id });
        } else {
            res.push(AppEvent::RuleStopped { rule_id });
        }
        i = i + 1;
    }
    res
}

/// The warnings for the folders that could not be watched: the folder at
/// each position of `errors` that holds an error, in order.
pub open spec fn watch_warnings(paths: Seq<Seq<char>>, errors: Seq<Option<Seq<char>>>) -> Seq<EventView>
    decreases errors.len(),
{
    if errors.len() == 0 {
        Seq::<EventView>::empty()
    } else {
        let before = watch_warnings(paths, errors.drop_last());
        match errors.last() {
            Some(e) => before.push(
                EventView::Warning("Failed to watch "@ + paths[errors.len() - 1] + ": "@ + e),
            ),
            None => before,
        }
    }
}

/// The folders of the rules, in order.
pub open spec fn rule_paths(rules: Seq<WatchRule>) -> Seq<Seq<char>> {
    Seq::new(rules.len(), |i: int| rules[i].path@)
}

/// One `RuleStarted` per rule, in order.
pub open spec fn started_events(rules: Seq<WatchRule>) -> Seq<EventView> {
    Seq::new(rules.len(), |i: int| EventView::RuleStarted(rules[i].id@))
}

/// The events of a watcher's start: when the watcher could not be created,
/// only that error; otherwise a warning for each rule's folder that could
/// not be watched, in order, then one `RuleStarted` per rule, in order.
pub open spec fn startup_spec(
    rules: Seq<WatchRule>,
    created: Result<(), Seq<char>>,
    watch_errors: Seq<Option<Seq<char>>>,
) -> Seq<EventView> {
    match created {
        Err(e) => seq![EventView::Error("Failed to create watcher: "@ + e)],
        Ok(_) => watch_warnings(rule_paths(rules), watch_errors) + started_events(rules),
    }
}

/// The events to report when a watcher starts, given whether it could be
/// created (`Err` holds why not) and, for each rule's folder in order,
/// whether it could be watched (`Some` holds why not).
pub fn startup_events(
    rules: &Vec<WatchRule>,
    created: &Result<(), String>,
    watch_errors: &Vec<Option<String>>,
) -> (res: Vec<AppEvent>)
    requires
        created is Ok ==> watch_errors@.len() == rules@.len(),
    ensures
        events_view(res@) == startup_spec(
            rules@,
            match created {
                Ok(_) => Ok(()),
                Err(e) => Err(e@),
            },
            watch_errors@.map_values(|o: Option<String>| opt_view(o)),
        ),
{
    let mut res: Vec<AppEvent> = Vec::new();
    match created {
        Err(e) => {
            let message = String::from_str("Failed to create watcher: ").concat(e.as_str());
            res.push(AppEvent::Error { message });
            assert(events_view(res@) =~= seq![EventView::Error("Failed to create watcher: "@ + e@)]);
            return res;
        },
        Ok(_) => {},
    }
    let ghost paths = rule_paths(rules@);
    let ghost errs = watch_errors@.map_values(|o: Option<String>| opt_view(o));
    let n: usize = watch_errors.len();
    let mut i: usize = 0;
    while i < n
        invariant
            n == watch_errors@.len(),
            n == rules@.len(),
            i <= n,
            paths == rule_paths(rules@),
            errs == watch_errors@.map_values(|o: Option<String>| opt_view(o)),
            events_view(res@) == watch_warnings(paths, errs.take(i as int)),
        decreases n - i,
    {
        let ghost before = events_view(res@);
        assert(errs.take(i + 1).drop_last() =~= errs.take(i as int));
        assert(errs.take(i + 1).last() == opt_view(watch_errors@[i as int]));
        match &watch_errors[i] {
            Some(e) => {
                let message = String::from_str("Failed to watch ").concat(rules[i].path.as_str()).concat(
                    ": ",
                ).concat(e.as_str());
                res.push(AppEvent::Warning { message });
                assert(events_view(res@) =~= before.push(
                    EventView::Warning("Failed to watch "@ + paths[i as int] + ": "@ + e@),
                ));
            },
            None => {},
        }
        i = i + 1;
    }
    assert(errs.take(n as int) =~= errs);
    let ghost warned = events_view(res@);
    let mut j: usize = 0;
    while j < rules.len()
        invariant
            j <= rules@.len(),
            events_view(res@) == warned + started_events(rules@).take(j as int),
        decreases rules@.len() - j,
    {
        let ghost before = events_view(res@);
        res.push(AppEvent::RuleStarted { rule_id: rules[j].id.clone() });
        assert(events_view(res@) =~= before.push(EventView::RuleStarted(rules@[j as int].id@)));
        assert(started_events(rules@).take(j + 1) =~= started_events(rules@).take(j as int).push(
            EventView::RuleStarted(rules@[j as int].id@),
        ));
        j = j + 1;
    }
    assert(started_events(rules@).take(rules@.len() as int) =~= started_events(rules@));
    res
}

/// The warnings of a start are warnings only.
proof fn lemma_warnings_are_warnings(paths: Seq<Seq<char>>, errors: Seq<Option<Seq<char>>>)
    ensures
        forall|k: int| 0 <= k < watch_warnings(paths, errors).len() ==> #[trigger] watch_warnings(
            paths,
            errors,
        )[k] is Warning,
        watch_warnings(paths, errors).len() <= errors.len(),
    decreases errors.len(),
{
    if errors.len() > 0 {
        lemma_warnings_are_warnings(paths, errors.drop_last());
    }
}

/// A watcher that could not be created reports only that, and starts no
/// rule; one that could reports its warnings first and then starts every
/// rule, once each, in the order of the rules, as the last events of its
/// start.
pub proof fn lemma_start_order(
    rules: Seq<WatchRule>,
    created: Result<(), Seq<char>>,
    watch_errors: Seq<Option<Seq<char>>>,
)
    ensures
        created is Err ==> startup_spec(rules, created, watch_errors).len() == 1 && startup_spec(
            rules,
            created,
            watch_errors,
        )[0] is Error,
        created is Ok ==> {
            let s = startup_spec(rules, created, watch_errors);
            let w = s.len() - rules.len();
            &&& w >= 0
            &&& forall|k: int| 0 <= k < w ==> #[trigger] s[k] is Warning
            &&& forall|i: int| 0 <= i < rules.len() ==> #[trigger] s[w + i] == EventView::RuleStarted(
                rules[i].id@,
            )
        },
{
    lemma_warnings_are_warnings(rule_paths(rules), watch_errors);
    if created is Ok {
        let s = startup_spec(rules, created, watch_errors);
        let ws = watch_warnings(rule_paths(rules), watch_errors);
        assert(s == ws + started_events(rules));
        assert forall|i: int| 0 <= i < rules.len() implies #[trigger] s[ws.len() + i]
            == EventView::RuleStarted(rules[i].id@) by {
            assert(s[ws.len() + i] == started_events(rules)[i]);
        }
        assert forall|k: int| 0 <= k < ws.len() implies #[trigger] s[k] is Warning by {
            assert(s[k] == ws[k]);
        }
    }
}

/// Compiles every rule, in order, and stops at the first that does not
/// compile, giving its position and error.
pub fn compile_rules(rules: &Vec<WatchRule>) -> (res: Result<Vec<RuleMatcher>, (usize, CoreError)>)
    ensures
        match res {
            Ok(ms) => ms@.len() == rules@.len() && forall|i: int|
                0 <= i < rules@.len() ==> compile_spec(rules@[i].file_mask@, opt_view(rules@[i].regex))
                    == Ok::<MatcherView, ErrorView>((#[trigger] ms@[i])@),
            Err((k, e)) => k < rules@.len() && compile_spec(
                rules@[k as int].file_mask@,
                opt_view(rules@[k as int].regex),
            ) == Err::<MatcherView, ErrorView>(e@) && forall|i: int|
                0 <= i < k ==> #[trigger] compile_spec(rules@[i].file_mask@, opt_view(rules@[i].regex)) is Ok,
        },
{
    let n: usize = rules.len();
    let mut ms: Vec<RuleMatcher> = Vec::new();
    let mut i: usize = 0;
    while i < n
        invariant
            n == rules@.len(),
            i <= n,
            ms@.len() == i,
            forall|k: int|
                0 <= k < i ==> compile_spec(rules@[k].file_mask@, opt_view(rules@[k].regex)) == Ok::<
                    MatcherView,
                    ErrorView,
                >((#[trigger] ms@[k])@),
        decreases n - i,
    {
        match RuleMatcher::new(&rules[i]) {
            Ok(m) => {
                ms.push(m);
            },
            Err(e) => {
                assert forall|k: int| 0 <= k < i implies #[trigger] compile_spec(
                    rules@[k].file_mask@,
                    opt_view(rules@[k].regex),
                ) is Ok by {
                    assert(compile_spec(rules@[k].file_mask@, opt_view(rules@[k].regex)) == Ok::<
                        MatcherView,
                        ErrorView,
                    >(ms@[k]@));
                }
                return Err((i, e));
            },
        }
        i = i + 1;
    }
    Ok(ms)
}

/// What the caller does next for a file and a rule.
#[derive(Debug, Clone, Copy)]
pub enum NextStep {
    /// Nothing more: the rule passed the file over, or the file is not ready.
    Skip,
    /// Wait with this checker until the file is stable, and report back.
    WaitStable(StabilityChecker),
    /// Run the rule's action for the file, and report back.
    Launch,
}

/// The events that announce a ready file's action, for a rule and a path.
pub open spec fn launch_events(rule: WatchRule, path: Seq<char>) -> Seq<EventView> {
    seq![
        EventView::FileReady(rule.id@, path),
        EventView::ActionStarted(rule.id@, rule.action.executable@, rule.action.arguments.deep_view()),
    ]
}

/// The checker a rule waits with.
pub open spec fn checker_of(rule: WatchRule) -> StabilityChecker {
    StabilityChecker {
        check_interval_ms: rule.stable_check_ms,
        required_stable_count: rule.stable_checks_count,
        timeout_sec: rule.ready_timeout_sec,
    }
}

/// The events and next step for a detected file and a rule, given the
/// rule's decision on it.
pub open spec fn detected_spec(rule: WatchRule, path: Seq<char>, d: DecisionView) -> (Seq<EventView>, NextStep) {
    let detected = seq![EventView::FileDetected(rule.id@, path)];
    match d {
        DecisionView::Ignored(r) => (
            detected.push(EventView::FileIgnored(rule.id@, path, reason_text(r))),
            NextStep::Skip,
        ),
        DecisionView::Matched => if rule.wait_until_stable {
            (detected.push(EventView::FileMatched(rule.id@, path)), NextStep::WaitStable(checker_of(rule)))
        } else {
            (
                detected.push(EventView::FileMatched(rule.id@, path)) + launch_events(rule, path),
                NextStep::Launch,
            )
        },
    }
}

/// The announcing events of a ready file's action.
fn push_launch_events(events: &mut Vec<AppEvent>, rule: &WatchRule, path: &String)
    ensures
        events_view(final(events)@) == events_view(old(events)@) + launch_events(*rule, path@),
{
    let ghost before = events_view(events@);
    events.push(AppEvent::FileReady { rule_id: rule.id.clone(), path: path.clone() });
    events.push(
        AppEvent::ActionStarted {
            rule_id: rule.id.clone(),
            executable: rule.action.executable.clone(),
            arguments: copy_strings(&rule.action.arguments),
        },
    );
    assert(events_view(events@) =~= before + launch_events(*rule, path@));
}

/// What a rule does with a file that was seen to be created or modified: it
/// reports the file, decides on it, and either passes it over, waits for it
/// to be stable, or launches its action.
pub fn on_file_detected(rule: &WatchRule, matcher: &RuleMatcher, candidate: &FileCandidate) -> (res: (
    Vec<AppEvent>,
    NextStep,
))
    ensures
        (events_view(res.0@), res.1) == detected_spec(
            *rule,
            candidate.path@,
            decision(matcher@, *rule, *candidate, false),
        ) || (events_view(res.0@), res.1) == detected_spec(
            *rule,
            candidate.path@,
            decision(matcher@, *rule, *candidate, true),
        ),
{
    let d = matcher.decide(rule, candidate);
    let res = on_decision(rule, &candidate.path, &d);
    res
}

/// What a rule does with a detected file, given its decision on it.
pub fn on_decision(rule: &WatchRule, path: &String, d: &MatchDecision) -> (res: (Vec<AppEvent>, NextStep))
    ensures
        (events_view(res.0@), res.1) == detected_spec(*rule, path@, d@),
{
    let mut events: Vec<AppEvent> = Vec::new();
    events.push(AppEvent::FileDetected { rule_id: rule.id.clone(), path: path.clone() });
    let ghost detected = events_view(events@);
    assert(detected =~= seq![EventView::FileDetected(rule.id@, path@)]);
    match d {
        MatchDecision::Ignored { reason } => {
            events.push(
                AppEvent::FileIgnored {
                    rule_id: rule.id.clone(),
                    path: path.clone(),
                    reason: reason.describe(),
                },
            );
            assert(events_view(events@) =~= detected.push(
                EventView::FileIgnored(rule.id@, path@, reason_text(reason@)),
            ));
            (events, NextStep::Skip)
        },
        MatchDecision::Matched => {
            events.push(AppEvent::FileMatched { rule_id: rule.id.clone(), path: path.clone() });
            assert(events_view(events@) =~= detected.push(EventView::FileMatched(rule.id@, path@)));
            if rule.wait_until_stable {
                let checker = StabilityChecker {
                    check_interval_ms: rule.stable_check_ms,
                    required_stable_count: rule.stable_checks_count,
                    timeout_sec: rule.ready_timeout_sec,
                };
                (events, NextStep::WaitStable(checker))
            } else {
                push_launch_events(&mut events, rule, path);
                (events, NextStep::Launch)
            }
        },
    }
}

/// The events, and whether to launch, after waiting for a file: ready,
/// timed out (`Ok(false)`), or failed with an error.
pub open spec fn stability_spec(rule: WatchRule, path: Seq<char>, outcome: Result<bool, Seq<char>>) -> (
    Seq<EventView>,
    bool,
) {
    match outcome {
        Ok(true) => (launch_events(rule, path), true),
        Ok(false) => (
            seq![EventView::Warning("Timeout waiting for file to stabilize: "@ + path)],
            false,
        ),
        Err(e) => (seq![EventView::Error("Stability check error: "@ + e)], false),
    }
}

/// What a rule does once waiting for a file has ended.
pub fn on_stability(rule: &WatchRule, path: &String, outcome: Result<bool, String>) -> (res: (
    Vec<AppEvent>,
    bool,
))
    ensures
        (events_view(res.0@), res.1) == stability_spec(
            *rule,
            path@,
            match outcome {
                Ok(b) => Ok(b),
                Err(e) => Err(e@),
            },
        ),
{
    let mut events: Vec<AppEvent> = Vec::new();
    match outcome {
        Ok(true) => {
            assert(events_view(events@) =~= Seq::<EventView>::empty());
            push_launch_events(&mut events, rule, path);
            assert(events_view(events@) =~= launch_events(*rule, path@));
            (events, true)
        },
        Ok(false) => {
            let message = String::from_str("Timeout waiting for file to stabilize: ").concat(
                path.as_str(),
            );
            events.push(AppEvent::Warning { message });
            assert(events_view(events@) =~= seq![
                EventView::Warning("Timeout waiting for file to stabilize: "@ + path@),
            ]);
            (events, false)
        },
        Err(e) => {
            let message = String::from_str("Stability check error: ").concat(e.as_str());
            events.push(AppEvent::Error { message });
            assert(events_view(events@) =~= seq![
                EventView::Error("Stability check error: "@ + e@),
            ]);
            (events, false)
        },
    }
}

/// The event that reports how a rule's action went.
pub fn on_action_done(rule: &WatchRule, path: &String, outcome: &Result<ActionResult, String>) -> (res:
    AppEvent)
    ensures
        res@ == (match outcome {
            Ok(_) => EventView::ActionCompleted(rule.id@, path@),
            Err(e) => EventView::ActionFailed(rule.id@, path@, e@),
        }),
{
    match outcome {
        Ok(_) => AppEvent::ActionCompleted { rule_id: rule.id.clone(), path: path.clone() },
        Err(e) => AppEvent::ActionFailed {
            rule_id: rule.id.clone(),
            path: path.clone(),
            error: e.clone(),
        },
    }
}

/// A detected file is reported first, then either taken or passed over, and
/// a rule waits for it or runs its action only when it took the file:
/// launching at once when the rule does not wait for files to be stable.
pub proof fn lemma_detected_then_verdict(rule: WatchRule, path: Seq<char>, d: DecisionView)
    ensures
        detected_spec(rule, path, d).0.len() >= 2,
        detected_spec(rule, path, d).0[0] == EventView::FileDetected(rule.id@, path),
        d == DecisionView::Matched <==> detected_spec(rule, path, d).0[1] == EventView::FileMatched(
            rule.id@,
            path,
        ),
        !(detected_spec(rule, path, d).1 is Skip) ==> d == DecisionView::Matched,
        detected_spec(rule, path, d).1 is Launch ==> !rule.wait_until_stable,
        detected_spec(rule, path, d).1 is WaitStable ==> rule.wait_until_stable,
{
}

/// After waiting, the action runs only when the file was found ready.
pub proof fn lemma_launch_only_when_ready(rule: WatchRule, path: Seq<char>, outcome: Result<bool, Seq<char>>)
    ensures
        stability_spec(rule, path, outcome).1 <==> outcome == Ok::<bool, Seq<char>>(true),
{
}

/// Whether a rule's action runs for a file, given the rule's decision on it
/// and, when the rule waits for the file, how waiting ended.
pub open spec fn runs_action(rule: WatchRule, path: Seq<char>, d: DecisionView, waited: Result<bool, Seq<char>>) -> bool {
    match detected_spec(rule, path, d).1 {
        NextStep::Skip => false,
        NextStep::Launch => true,
        NextStep::WaitStable(_) => stability_spec(rule, path, waited).1,
    }
}

/// A rule runs its action for a file exactly when it took the file and,
/// when it waits for files to be stable, the file was found ready.
pub proof fn lemma_runs_exactly_when_matched_and_ready(
    rule: WatchRule,
    path: Seq<char>,
    d: DecisionView,
    waited: Result<bool, Seq<char>>,
)
    ensures
        runs_action(rule, path, d, waited) <==> (d == DecisionView::Matched && (!rule.wait_until_stable
            || waited == Ok::<bool, Seq<char>>(true))),
{
}

/// What kind of change a file-system notification reports.
#[derive(Debug, Clone, Copy, PartialEq, Eq, Structural)]
pub enum ChangeKind {
    Create,
    Modify,
    Other,
}

/// Every rule, in order, tried on one path.
pub open spec fn row(p: usize, n_rules: usize) -> Seq<(usize, usize)> {
    Seq::new(n_rules as nat, |j: int| (p, j as usize))
}

/// The (path, rule) positions tried for a notification about paths of which
/// those marked in `is_dir` are directories: every path that is not a
/// directory, in order, each with every rule in order.
pub open spec fn walk_spec(is_dir: Seq<bool>, n_rules: usize) -> Seq<(usize, usize)>
    decreases is_dir.len(),
{
    if is_dir.len() == 0 {
        Seq::<(usize, usize)>::empty()
    } else {
        let before = walk_spec(is_dir.drop_last(), n_rules);
        if is_dir.last() {
            before
        } else {
            before + row((is_dir.len() - 1) as usize, n_rules)
        }
    }
}

/// The (path, rule) positions to try for a notification: none unless it
/// reports a creation or a modification, and otherwise every path that is
/// not a directory, in order, each with every rule in order.
pub fn walk_order(kind: ChangeKind, is_dir: &Vec<bool>, n_rules: usize) -> (res: Vec<(usize, usize)>)
    ensures
        res@ == walk_order_spec(kind, is_dir@, n_rules),
{
    let mut res: Vec<(usize, usize)> = Vec::new();
    if kind == ChangeKind::Other {
        return res;
    }
    let n: usize = is_dir.len();
    let mut p: usize = 0;
    while p < n
        invariant
            n == is_dir@.len(),
            p <= n,
            res@ == walk_spec(is_dir@.take(p as int), n_rules),
        decreases n - p,
    {
        assert(is_dir@.take(p + 1).drop_last() =~= is_dir@.take(p as int));
        assert(is_dir@.take(p + 1).last() == is_dir@[p as int]);
        if !is_dir[p] {
            let ghost before = res@;
            let mut r: usize = 0;
            while r < n_rules
                invariant
                    p < n,
                    r <= n_rules,
                    res@ == before + row(p, n_rules).take(r as int),
                decreases n_rules - r,
            {
                res.push((p, r));
                assert(row(p, n_rules).take(r + 1) =~= row(p, n_rules).take(r as int).push((p, r)));
                r = r + 1;
            }
            assert(row(p, n_rules).take(n_rules as int) =~= row(p, n_rules));
        }
        p = p + 1;
    }
    assert(is_dir@.take(n as int) =~= is_dir@);
    res
}

/// The walk tries exactly the pairs of a path that is not a directory and a
/// rule, each once, in order of path and then of rule.
pub proof fn lemma_walk_tries_each_pair_once(is_dir: Seq<bool>, n_rules: usize)
    requires
        is_dir.len() <= usize::MAX,
    ensures
        forall|k: int|
            0 <= k < walk_spec(is_dir, n_rules).len() ==> {
                let (p, r) = #[trigger] walk_spec(is_dir, n_rules)[k];
                p < is_dir.len() && !is_dir[p as int] && r < n_rules
            },
        forall|p: usize, r: usize|
            p < is_dir.len() && !is_dir[p as int] && r < n_rules ==> walk_spec(
                is_dir,
                n_rules,
            ).contains((p, r)),
        forall|k1: int, k2: int|
            0 <= k1 < k2 < walk_spec(is_dir, n_rules).len() ==> {
                let a = #[trigger] walk_spec(is_dir, n_rules)[k1];
                let b = #[trigger] walk_spec(is_dir, n_rules)[k2];
                a.0 < b.0 || (a.0 == b.0 && a.1 < b.1)
            },
    decreases is_dir.len(),
{
    if is_dir.len() > 0 {
        let prev = is_dir.drop_last();
        lemma_walk_tries_each_pair_once(prev, n_rules);
        let w0 = walk_spec(prev, n_rules);
        let w = walk_spec(is_dir, n_rules);
        let last = (is_dir.len() - 1) as usize;
        assert forall|p: usize, r: usize|
            p < is_dir.len() && !is_dir[p as int] && r < n_rules implies w.contains((p, r)) by {
            if p < last {
                assert(prev[p as int] == is_dir[p as int]);
                assert(w0.contains((p, r)));
                let k = choose|k: int| 0 <= k < w0.len() && w0[k] == (p, r);
                assert(w[k] == (p, r));
            } else {
                assert(p == last);
                assert(w == w0 + row(last, n_rules));
                assert(row(last, n_rules)[r as int] == (p, r));
                assert(w[w0.len() + r] == (p, r));
            }
        }
        assert forall|k: int| 0 <= k < w.len() implies {
            let (p, r) = #[trigger] w[k];
            p < is_dir.len() && !is_dir[p as int] && r < n_rules
        } by {
            if k < w0.len() {
                assert(w[k] == w0[k]);
                assert(prev[w0[k].0 as int] == is_dir[w0[k].0 as int]);
            } else {
                assert(!is_dir.last());
                assert(w[k] == row(last, n_rules)[k - w0.len()]);
            }
        }
        assert forall|k1: int, k2: int| 0 <= k1 < k2 < w.len() implies {
            let a = #[trigger] w[k1];
            let b = #[trigger] w[k2];
            a.0 < b.0 || (a.0 == b.0 && a.1 < b.1)
        } by {
            if k2 < w0.len() {
                assert(w[k1] == w0[k1] && w[k2] == w0[k2]);
            } else if k1 < w0.len() {
                assert(!is_dir.last());
                assert(w[k1] == w0[k1]);
                assert(w0[k1].0 < prev.len());
                assert(w[k2] == row(last, n_rules)[k2 - w0.len()]);
            } else {
                assert(w[k1] == row(last, n_rules)[k1 - w0.len()]);
                assert(w[k2] == row(last, n_rules)[k2 - w0.len()]);
            }
        }
    }
}

/// How waiting for a file ended, as a mathematical value (`Ok(false)` when
/// the rule did not wait).
pub open spec fn waited_view(w: Option<Result<bool, String>>) -> Result<bool, Seq<char>> {
    match w {
        Some(Ok(b)) => Ok(b),
        Some(Err(e)) => Err(e@),
        None => Ok(false),
    }
}

/// The event that reports how an action went, if it ran.
pub open spec fn action_events(rule: WatchRule, path: Seq<char>, outcome: Option<Result<(), String>>) -> Seq<EventView> {
    match outcome {
        Some(Ok(_)) => seq![EventView::ActionCompleted(rule.id@, path)],
        Some(Err(e)) => seq![EventView::ActionFailed(rule.id@, path, e@)],
        None => Seq::<EventView>::empty(),
    }
}

/// What happened for one file and one rule of a notification.
pub struct PairReport {
    /// The position of the file among the notification's paths.
    pub path_index: usize,
    /// The position of the rule.
    pub rule_index: usize,
    /// When, in milliseconds, the rule looked at the file.
    pub now_ms: u64,
    /// When the rule had last handled the file before, as the table said.
    pub last_ms: Ghost<Option<u64>>,
    /// Whether the rule handled the file (the debounce interval had passed).
    pub handled: bool,
    /// The rule's decision on the file, when it handled it.
    pub decision: Option<MatchDecision>,
    /// How waiting for the file ended, when the rule waited.
    pub waited: Option<Result<bool, String>>,
    /// How the action went (`Err` holds the runner's error), when it ran.
    pub outcome: Option<Result<(), String>>,
    /// The events reported for the file and the rule, in order.
    pub events: Ghost<Seq<EventView>>,
}

/// Whether `rep` says truly what a rule and its compiled matcher did with a
/// candidate file: handled only past the debounce interval, then the rule's
/// decision (for one of the two answers about directories), waiting only
/// when the rule takes the file and waits for files, the action only when it
/// takes the file and, when it waits, the file was found ready, and the
/// events in the order the steps report them.
pub open spec fn pair_done(rule: WatchRule, m: MatcherView, c: FileCandidate, rep: PairReport) -> bool {
    &&& rep.handled == crate::debounce::debounce_spec(rep.last_ms@, rep.now_ms, rule.debounce_ms)
    &&& !rep.handled ==> rep.decision is None && rep.waited is None && rep.outcome is None
        && rep.events@ == Seq::<EventView>::empty()
    &&& rep.handled ==> {
        &&& rep.decision is Some
        &&& {
            let d = rep.decision->0@;
            &&& (d == decision(m, rule, c, false) || d == decision(m, rule, c, true))
            &&& (rep.waited is Some <==> detected_spec(rule, c.path@, d).1 is WaitStable)
            &&& (rep.outcome is Some <==> runs_action(rule, c.path@, d, waited_view(rep.waited)))
            &&& rep.events@ == detected_spec(rule, c.path@, d).0 + (if rep.waited is Some {
                stability_spec(rule, c.path@, waited_view(rep.waited)).0
            } else {
                Seq::<EventView>::empty()
            }) + action_events(rule, c.path@, rep.outcome)
        }
    }
}

/// The (rule id, file) of each action run, by the reports of the pairs
/// tried, in order: one for each pair whose action ran.
pub open spec fn launches(reports: Seq<PairReport>, rules: Seq<WatchRule>, candidates: Seq<FileCandidate>) -> Seq<
    (Seq<char>, Seq<char>),
>
    decreases reports.len(),
{
    if reports.len() == 0 {
        Seq::<(Seq<char>, Seq<char>)>::empty()
    } else {
        let before = launches(reports.drop_last(), rules, candidates);
        let rep = reports.last();
        if rep.outcome is Some {
            before.push((rules[rep.rule_index as int].id@, candidates[rep.path_index as int].path@))
        } else {
            before
        }
    }
}

/// When a rule last handled a file, after the pairs of `reports` were tried
/// on a table `t0`: the time of the last of them that handled it, if any,
/// and otherwise what `t0` says.
pub open spec fn last_seen(
    reports: Seq<PairReport>,
    rules: Seq<WatchRule>,
    candidates: Seq<FileCandidate>,
    t0: DebounceTable,
    rule_id: Seq<char>,
    path: Seq<char>,
) -> Option<u64>
    decreases reports.len(),
{
    if reports.len() == 0 {
        t0.last(rule_id, path)
    } else {
        let rep = reports.last();
        if rep.handled && rules[rep.rule_index as int].id@ == rule_id
            && candidates[rep.path_index as int].path@ == path {
            Some(rep.now_ms)
        } else {
            last_seen(reports.drop_last(), rules, candidates, t0, rule_id, path)
        }
    }
}

/// Hands each event to `emit`, in order, and says which events they were.
fn emit_all<E: Fn(AppEvent)>(emit: &E, events: Vec<AppEvent>) -> (seen: Ghost<Seq<EventView>>)
    requires
        forall|e: AppEvent| call_requires(*emit, (e,)),
    ensures
        seen@ == events_view(events@),
{
    let ghost all = events_view(events@);
    let n: usize = events.len();
    let mut rest = events;
    let mut i: usize = 0;
    while i < n
        invariant
            n == all.len(),
            i <= n,
            forall|e: AppEvent| call_requires(*emit, (e,)),
            events_view(rest@) == all.skip(i as int),
            rest@.len() == n - i,
        decreases n - i,
    {
        let ghost before = rest@;
        let e = rest.remove(0);
        assert(events_view(rest@) =~= events_view(before).skip(1));
        assert(all.skip(i as int).skip(1) =~= all.skip(i + 1));
        emit(e);
        i = i + 1;
    }
    Ghost(all)
}

/// Handles one file-system notification: tries every file that is not a
/// directory, in order, with every rule, in order (see `walk_order`); for
/// each, past the rule's debounce interval, it reports the file, decides on
/// it, waits for it with `wait` when the rule takes it and waits for files,
/// and runs the rule's action with `runner` when the rule takes it and it is
/// ready, emitting each event with `emit` as it goes. `now` reads the clock.
/// Returns what happened for each (file, rule) pair tried; the runner runs
/// exactly the actions those reports say ran, in order, and no other.
pub fn process_notification<R: ActionRunner, W, N, E>(
    kind: ChangeKind,
    is_dir: &Vec<bool>,
    candidates: &Vec<FileCandidate>,
    rules: &Vec<WatchRule>,
    matchers: &Vec<RuleMatcher>,
    table: &mut DebounceTable,
    runner: &mut R,
    wait: &W,
    now: &N,
    emit: &E,
) -> (reports: Vec<PairReport>) where
    W: Fn(StabilityChecker, usize) -> Result<bool, String>,
    N: Fn() -> u64,
    E: Fn(AppEvent),

    requires
        candidates@.len() == is_dir@.len(),
        matchers@.len() == rules@.len(),
        forall|c: StabilityChecker, p: usize| call_requires(*wait, (c, p)),
        call_requires(*now, ()),
        forall|e: AppEvent| call_requires(*emit, (e,)),
    ensures
        reports@.len() == walk_order_spec(kind, is_dir@, rules.len()).len(),
        forall|k: int|
            0 <= k < reports@.len() ==> {
                let rep = #[trigger] reports@[k];
                let (p, r) = walk_order_spec(kind, is_dir@, rules.len())[k];
                &&& rep.path_index == p
                &&& rep.rule_index == r
                &&& pair_done(rules@[r as int], matchers@[r as int]@, candidates@[p as int], rep)
            },
        forall|k: int|
            0 <= k < reports@.len() ==> (#[trigger] reports@[k]).last_ms@ == last_seen(
                reports@.take(k),
                rules@,
                candidates@,
                *old(table),
                rules@[reports@[k].rule_index as int].id@,
                candidates@[reports@[k].path_index as int].path@,
            ),
        forall|id: Seq<char>, path: Seq<char>|
            #[trigger] final(table).last(id, path) == last_seen(
                reports@,
                rules@,
                candidates@,
                *old(table),
                id,
                path,
            ),
        final(runner).runs() == old(runner).runs() + launches(reports@, rules@, candidates@),
{
    let pairs = walk_order(kind, is_dir, rules.len());
    proof {
        assert(is_dir@.len() == is_dir.len());
        if kind != ChangeKind::Other {
            lemma_walk_tries_each_pair_once(is_dir@, rules.len());
        }
    }
    let n: usize = pairs.len();
    let mut reports: Vec<PairReport> = Vec::new();
    let mut k: usize = 0;
    while k < n
        invariant
            n == pairs@.len(),
            pairs@ == walk_order_spec(kind, is_dir@, rules.len()),
            candidates@.len() == is_dir@.len(),
            matchers@.len() == rules@.len(),
            forall|c: StabilityChecker, p: usize| call_requires(*wait, (c, p)),
            call_requires(*now, ()),
            forall|e: AppEvent| call_requires(*emit, (e,)),
            forall|j: int|
                0 <= j < pairs@.len() ==> (#[trigger] pairs@[j]).0 < is_dir@.len() && pairs@[j].1
                    < rules@.len(),
            k <= n,
            reports@.len() == k,
            runner.runs() == old(runner).runs() + launches(reports@, rules@, candidates@),
            forall|j: int|
                0 <= j < k ==> {
                    let rep = #[trigger] reports@[j];
                    let (p, r) = pairs@[j];
                    &&& rep.path_index == p
                    &&& rep.rule_index == r
                    &&& pair_done(rules@[r as int], matchers@[r as int]@, candidates@[p as int], rep)
                },
            forall|j: int|
                0 <= j < k ==> (#[trigger] reports@[j]).last_ms@ == last_seen(
                    reports@.take(j),
                    rules@,
                    candidates@,
                    *old(table),
                    rules@[reports@[j].rule_index as int].id@,
                    candidates@[reports@[j].path_index as int].path@,
                ),
            forall|id: Seq<char>, path: Seq<char>|
                #[trigger] table.last(id, path) == last_seen(
                    reports@,
                    rules@,
                    candidates@,
                    *old(table),
                    id,
                    path,
                ),
        decreases n - k,
    {
        let (p, r) = pairs[k];
        let rule = &rules[r];
        let candidate = &candidates[p];
        let now_ms = now();
        let ghost last = table.last(rule.id@, candidate.path@);
        let handled = table.handles(rule.id.as_str(), candidate.path.as_str(), now_ms, rule.debounce_ms);
        let rep = if !handled {
            PairReport {
                path_index: p,
                rule_index: r,
                now_ms,
                last_ms: Ghost(last),
                handled: false,
                decision: None,
                waited: None,
                outcome: None,
                events: Ghost(Seq::<EventView>::empty()),
            }
        } else {
            let d = matchers[r].decide(rule, candidate);
            let (events, next) = on_decision(rule, &candidate.path, &d);
            let seen1 = emit_all(emit, events);
            let (waited, launch, seen2) = match next {
                NextStep::Skip => (None, false, Ghost(Seq::<EventView>::empty())),
                NextStep::Launch => (None, true, Ghost(Seq::<EventView>::empty())),
                NextStep::WaitStable(checker) => {
                    let outcome = wait(checker, p);
                    let kept = match &outcome {
                        Ok(b) => Ok(*b),
                        Err(e) => Err(e.clone()),
                    };
                    let (events, go) = on_stability(rule, &candidate.path, outcome);
                    let seen = emit_all(emit, events);
                    (Some(kept), go, seen)
                },
            };
            let (outcome, seen3) = if launch {
                let result = runner.run(rule, candidate.path.as_str());
                let done = on_action_done(rule, &candidate.path, &result);
                let kept = match &result {
                    Ok(_) => Ok(()),
                    Err(e) => Err(e.clone()),
                };
                let mut last_events: Vec<AppEvent> = Vec::new();
                last_events.push(done);
                let seen = emit_all(emit, last_events);
                (Some(kept), seen)
            } else {
                (None, Ghost(Seq::<EventView>::empty()))
            };
            proof {
                assert(seen3@ =~= action_events(*rule, candidate.path@, outcome));
            }
            PairReport {
                path_index: p,
                rule_index: r,
                now_ms,
                last_ms: Ghost(last),
                handled: true,
                decision: Some(d),
                waited,
                outcome,
                events: Ghost(seen1@ + seen2@ + seen3@),
            }
        };
        let ghost before = reports@;
        reports.push(rep);
        proof {
            assert(reports@.drop_last() =~= before);
            assert(reports@.take(k as int) =~= before);
            assert forall|j: int| 0 <= j < k implies reports@.take(j) =~= before.take(j) by {}
        }
        k = k + 1;
    }
    reports
}

/// The (path, rule) positions tried for a notification of a kind.
pub open spec fn walk_order_spec(kind: ChangeKind, is_dir: Seq<bool>, n_rules: usize) -> Seq<(usize, usize)> {
    if kind == ChangeKind::Other {
        Seq::<(usize, usize)>::empty()
    } else {
        walk_spec(is_dir, n_rules)
    }
}

/// The events reported for the pairs of a notification, in order.
pub open spec fn report_events(reports: Seq<PairReport>) -> Seq<EventView>
    decreases reports.len(),
{
    if reports.len() == 0 {
        Seq::<EventView>::empty()
    } else {
        report_events(reports.drop_last()) + reports.last().events@
    }
}

/// Where a watching session is: not started yet, watching, or over.
#[derive(Debug, Clone, Copy, PartialEq, Eq, Structural)]
pub enum SessionPhase {
    Ready,
    Running,
    Stopped,
}

/// A watcher at work: its rules with their compiled matchers, its runner,
/// its debounce table, where it is, and every event it has reported.
pub struct WatchSession<R: ActionRunner> {
    pub rules: Vec<WatchRule>,
    pub matchers: Vec<RuleMatcher>,
    pub runner: R,
    pub table: DebounceTable,
    pub phase: SessionPhase,
    /// Every event reported so far, in order.
    pub trace: Ghost<Seq<EventView>>,
}

impl<R: ActionRunner> WatchSession<R> {
    /// Whether every rule has the matcher compiled from it.
    pub open spec fn compiled(&self) -> bool {
        &&& self.matchers@.len() == self.rules@.len()
        &&& forall|i: int|
            0 <= i < self.rules@.len() ==> compile_spec(
                self.rules@[i].file_mask@,
                opt_view(self.rules@[i].regex),
            ) == Ok::<MatcherView, ErrorView>((#[trigger] self.matchers@[i])@)
    }

    /// Compiles the engine's rules for a session that has not started, and
    /// hands back the engine's channel; fails with the position and error
    /// of the first rule that does not compile.
    pub fn open(engine: WatcherEngine<R>) -> (res: Result<
        (WatchSession<R>, std::sync::mpsc::Sender<AppEvent>),
        (usize, CoreError),
    >)
        ensures
            match res {
                Ok((s, tx)) => {
                    &&& s.rules@ == engine.rules()
                    &&& s.compiled()
                    &&& s.runner == engine.runner()
                    &&& s.phase == SessionPhase::Ready
                    &&& s.trace@ == Seq::<EventView>::empty()
                    &&& tx == engine.channel()
                },
                Err((k, e)) => k < engine.rules().len() && compile_spec(
                    engine.rules()[k as int].file_mask@,
                    opt_view(engine.rules()[k as int].regex),
                ) == Err::<MatcherView, ErrorView>(e@),
            },
    {
        let (rules, runner, tx) = engine.into_parts();
        match compile_rules(&rules) {
            Ok(matchers) => Ok(
                (
                    WatchSession {
                        rules,
                        matchers,
                        runner,
                        table: DebounceTable::new(),
                        phase: SessionPhase::Ready,
                        trace: Ghost(Seq::empty()),
                    },
                    tx,
                ),
            ),
            Err(e) => Err(e),
        }
    }

    /// Starts the session, given whether the watcher could be created and,
    /// for each rule's folder, whether it could be watched; returns the
    /// events to report, which are the first of the session. The session
    /// runs only when the watcher was created.
    pub fn start(&mut self, created: &Result<(), String>, watch_errors: &Vec<Option<String>>) -> (events:
        Vec<AppEvent>)
        requires
            old(self).phase == SessionPhase::Ready,
            created is Ok ==> watch_errors@.len() == old(self).rules@.len(),
        ensures
            events_view(events@) == startup_spec(
                old(self).rules@,
                match created {
                    Ok(_) => Ok(()),
                    Err(e) => Err(e@),
                },
                watch_errors@.map_values(|o: Option<String>| opt_view(o)),
            ),
            final(self).trace@ == old(self).trace@ + events_view(events@),
            final(self).phase == (if created is Ok {
                SessionPhase::Running
            } else {
                SessionPhase::Stopped
            }),
            final(self).rules == old(self).rules,
            final(self).matchers == old(self).matchers,
            final(self).runner == old(self).runner,
    {
        let events = startup_events(&self.rules, created, watch_errors);
        self.trace = Ghost(self.trace@ + events_view(events@));
        self.phase = match created {
            Ok(_) => SessionPhase::Running,
            Err(_) => SessionPhase::Stopped,
        };
        events
    }

    /// Handles one notification of a running session (see
    /// `process_notification`); what it reports is added to the session's
    /// events.
    pub fn on_notification<W, N, E>(
        &mut self,
        kind: ChangeKind,
        is_dir: &Vec<bool>,
        candidates: &Vec<FileCandidate>,
        wait: &W,
        now: &N,
        emit: &E,
    ) -> (reports: Vec<PairReport>) where
        W: Fn(StabilityChecker, usize) -> Result<bool, String>,
        N: Fn() -> u64,
        E: Fn(AppEvent),

        requires
            old(self).phase == SessionPhase::Running,
            old(self).matchers@.len() == old(self).rules@.len(),
            candidates@.len() == is_dir@.len(),
            forall|c: StabilityChecker, p: usize| call_requires(*wait, (c, p)),
            call_requires(*now, ()),
            forall|e: AppEvent| call_requires(*emit, (e,)),
        ensures
            reports@.len() == walk_order_spec(kind, is_dir@, old(self).rules.len()).len(),
            forall|k: int|
                0 <= k < reports@.len() ==> {
                    let rep = #[trigger] reports@[k];
                    let (p, r) = walk_order_spec(kind, is_dir@, old(self).rules.len())[k];
                    &&& rep.path_index == p
                    &&& rep.rule_index == r
                    &&& pair_done(
                        old(self).rules@[r as int],
                        old(self).matchers@[r as int]@,
                        candidates@[p as int],
                        rep,
                    )
                },
            final(self).runner.runs() == old(self).runner.runs() + launches(
                reports@,
                old(self).rules@,
                candidates@,
            ),
            forall|k: int|
                0 <= k < reports@.len() ==> (#[trigger] reports@[k]).last_ms@ == last_seen(
                    reports@.take(k),
                    old(self).rules@,
                    candidates@,
                    old(self).table,
                    old(self).rules@[reports@[k].rule_index as int].id@,
                    candidates@[reports@[k].path_index as int].path@,
                ),
            forall|id: Seq<char>, path: Seq<char>|
                #[trigger] final(self).table.last(id, path) == last_seen(
                    reports@,
                    old(self).rules@,
                    candidates@,
                    old(self).table,
                    id,
                    path,
                ),
            final(self).trace@ == old(self).trace@ + report_events(reports@),
            final(self).phase == SessionPhase::Running,
            final(self).rules == old(self).rules,
            final(self).matchers == old(self).matchers,
    {
        let reports = process_notification(
            kind,
            is_dir,
            candidates,
            &self.rules,
            &self.matchers,
            &mut self.table,
            &mut self.runner,
            wait,
            now,
            emit,
        );
        self.trace = Ghost(self.trace@ + report_events(reports@));
        reports
    }

    /// The warning for an error that the watcher of a running session
    /// reported.
    pub fn on_watcher_error(&mut self, error: &String) -> (event: AppEvent)
        requires
            old(self).phase == SessionPhase::Running,
        ensures
            event@ == EventView::Warning("Watcher error: "@ + error@),
            final(self).trace@ == old(self).trace@.push(event@),
            final(self).phase == SessionPhase::Running,
            final(self).rules == old(self).rules,
            final(self).matchers == old(self).matchers,
            final(self).runner == old(self).runner,
    {
        let event = AppEvent::Warning {
            message: String::from_str("Watcher error: ").concat(error.as_str()),
        };
        self.trace = Ghost(self.trace@.push(event@));
        event
    }

    /// Stops a running session: one `RuleStopped` per rule, in order, are
    /// its last events.
    pub fn stop(&mut self) -> (events: Vec<AppEvent>)
        requires
            old(self).phase == SessionPhase::Running,
        ensures
            events@.len() == old(self).rules@.len(),
            forall|i: int|
                0 <= i < events@.len() ==> (#[trigger] events@[i])@ == EventView::RuleStopped(
                    old(self).rules@[i].id@,
                ),
            final(self).trace@ == old(self).trace@ + events_view(events@),
            final(self).phase == SessionPhase::Stopped,
            final(self).rules == old(self).rules,
    {
        let events = lifecycle_events(&self.rules, false);
        self.trace = Ghost(self.trace@ + events_view(events@));
        self.phase = SessionPhase::Stopped;
        events
    }
}

} // verus!
