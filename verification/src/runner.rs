//! Running a rule's action for a ready file.
use vstd::prelude::*;
use crate::placeholders::{parts_of, render_all, render_arguments, PathParts};
use crate::text::{join_spec, join_with};
use crate::types::WatchRule;

verus! {

/// The outcome of launching an action.
#[derive(Debug, Clone)]
pub struct ActionResult {
    pub success: bool,
    pub message: String,
}

/// Something that runs a rule's action for a file.
pub trait ActionRunner {
    /// The (rule id, file) of each run so far, in order.
    spec fn runs(&self) -> Seq<(Seq<char>, Seq<char>)>;

    /// Runs the rule's action for the file; each call is one run.
    fn run(&mut self, rule: &WatchRule, file: &str) -> (res: Result<ActionResult, String>)
        ensures
            final(self).runs() == old(self).runs().push((rule.id@, file@)),
    ;
}

/// What to launch for a file: the program and its rendered arguments.
#[derive(Debug, Clone)]
pub struct LaunchPlan {
    pub executable: String,
    pub arguments: Vec<String>,
}

/// Runs actions as new processes. Starting the process is up to the caller:
/// this type says what to start and what the outcome reads as.
#[derive(Debug, Clone, Copy)]
pub struct ProcessActionRunner;

/// The message for a process that was started.
pub open spec fn launched_text(executable: Seq<char>, args: Seq<Seq<char>>) -> Seq<char> {
    "Launched "@ + executable + " with args: "@ + join_spec(args, " "@)
}

/// The message for a process that could not be started.
pub open spec fn launch_failed_text(executable: Seq<char>, error: Seq<char>) -> Seq<char> {
    "Failed to launch "@ + executable + ": "@ + error
}

impl ProcessActionRunner {
    /// The program of the rule's action, with its arguments rendered for `file`.
    pub fn prepare(&self, rule: &WatchRule, file: &str) -> (plan: LaunchPlan)
        ensures
            plan.executable@ == rule.action.executable@,
            exists|parts: PathParts|
                parts_of(file@, parts) && plan.arguments.deep_view() == render_all(
                    rule.action.arguments.deep_view(),
                    file@,
                    parts,
                    rule.name@,
                ),
    {
        let arguments = render_arguments(&rule.action, file, rule);
        LaunchPlan { executable: rule.action.executable.clone(), arguments }
    }

    /// What starting the planned process reads as, given whether it started
    /// (`Err` holds the reason it did not).
    pub fn complete(&self, plan: &LaunchPlan, started: Result<(), String>) -> (res: Result<
        ActionResult,
        String,
    >)
        ensures
            match started {
                Ok(_) => res matches Ok(r) && r.success && r.message@ == launched_text(
                    plan.executable@,
                    plan.arguments.deep_view(),
                ),
                Err(e) => res matches Err(m) && m@ == launch_failed_text(plan.executable@, e@),
            },
    {
        match started {
            Ok(_) => {
                let joined = join_with(&plan.arguments, " ");
                let message = String::from_str("Launched ").concat(plan.executable.as_str()).concat(
                    " with args: ",
                ).concat(joined.as_str());
                Ok(ActionResult { success: true, message })
            },
            Err(e) => Err(
                String::from_str("Failed to launch ").concat(plan.executable.as_str()).concat(
                    ": ",
                ).concat(e.as_str()),
            ),
        }
    }
}

/// Something that starts a program with arguments, without waiting for it
/// (`Err` holds why it could not).
pub trait Spawner {
    fn spawn(&mut self, executable: &str, arguments: &Vec<String>) -> Result<(), String>;
}

/// Runs actions as new processes started by `spawner`: the program and its
/// arguments, and what the outcome reads as, are `ProcessActionRunner`'s.
pub struct SpawningRunner<S: Spawner> {
    pub spawner: S,
    /// The (rule id, file) of each run so far, in order.
    pub log: Ghost<Seq<(Seq<char>, Seq<char>)>>,
}

impl<S: Spawner> SpawningRunner<S> {
    /// A runner that has run nothing yet.
    pub fn new(spawner: S) -> (r: SpawningRunner<S>)
        ensures
            r.runs() == Seq::<(Seq<char>, Seq<char>)>::empty(),
            r.spawner == spawner,
    {
        SpawningRunner { spawner, log: Ghost(Seq::empty()) }
    }
}

impl<S: Spawner> ActionRunner for SpawningRunner<S> {
    open spec fn runs(&self) -> Seq<(Seq<char>, Seq<char>)> {
        self.log@
    }

    /// Starts the rule's program with its arguments rendered for `file`; the
    /// result is `Ok`, with `success` set, exactly when it started.
    fn run(&mut self, rule: &WatchRule, file: &str) -> (res: Result<ActionResult, String>)
        ensures
            exists|parts: PathParts|
                parts_of(file@, parts) && {
                    let args = render_all(rule.action.arguments.deep_view(), file@, parts, rule.name@);
                    match res {
                        Ok(r) => r.success && r.message@ == launched_text(rule.action.executable@, args),
                        Err(m) => exists|e: Seq<char>|
                            m@ == launch_failed_text(rule.action.executable@, e),
                    }
                },
    {
        let planner = ProcessActionRunner;
        let plan = planner.prepare(rule, file);
        let started = self.spawner.spawn(plan.executable.as_str(), &plan.arguments);
        let res = planner.complete(&plan, started);
        self.log = Ghost(self.log@.push((rule.id@, file@)));
        res
    }
}

/// A runner that only records what it was asked to run.
#[derive(Debug)]
pub struct FakeActionRunner {
    /// The rule id and file of each call, in order.
    pub calls: Vec<(String, String)>,
}

/// The message of a recorded call.
pub open spec fn fake_text(file: Seq<char>, rule_id: Seq<char>) -> Seq<char> {
    "Fake: would open "@ + file + " for rule "@ + rule_id
}

impl FakeActionRunner {
    /// A runner that has recorded nothing.
    pub fn new() -> (r: FakeActionRunner)
        ensures
            r.calls@.len() == 0,
    {
        FakeActionRunner { calls: Vec::new() }
    }

    /// How many calls were recorded.
    pub fn call_count(&self) -> (n: usize)
        ensures
            n == self.calls@.len(),
    {
        self.calls.len()
    }
}

impl ActionRunner for FakeActionRunner {
    open spec fn runs(&self) -> Seq<(Seq<char>, Seq<char>)> {
        self.calls@.map_values(|c: (String, String)| (c.0@, c.1@))
    }

    /// Records the call and reports success.
    fn run(&mut self, rule: &WatchRule, file: &str) -> (res: Result<ActionResult, String>)
        ensures
            final(self).calls@.len() == old(self).calls@.len() + 1,
            forall|i: int|
                0 <= i < old(self).calls@.len() ==> #[trigger] final(self).calls@[i] == old(
                    self,
                ).calls@[i],
            final(self).calls@.last().0@ == rule.id@,
            final(self).calls@.last().1@ == file@,
            res matches Ok(r) && r.success && r.message@ == fake_text(file@, rule.id@),
    {
        let ghost before = self.calls@;
        self.calls.push((rule.id.clone(), String::from_str(file)));
        assert(self.calls@.map_values(|c: (String, String)| (c.0@, c.1@)) =~= before.map_values(
            |c: (String, String)| (c.0@, c.1@),
        ).push((rule.id@, file@)));
        let message = String::from_str("Fake: would open ").concat(file).concat(" for rule ").concat(
            rule.id.as_str(),
        );
        Ok(ActionResult { success: true, message })
    }
}

} // verus!
