//! Job definitions and the course of one run: the run directory is made,
//! the steps run in order, then the artifact rules are collected.

use vstd::prelude::*;

use crate::artifact::globs_of;
use crate::clock::RunStamp;
use crate::pattern::{glob_regex, regex_valid, Matcher};
use crate::text::{sanitize, sanitized, split_trimmed, split_words, trimmed_fields, views, words};

verus! {

/// Why a job definition is not taken into the catalog.
#[derive(Clone, Copy, PartialEq, Eq, Structural, Debug)]
pub enum LoadError {
    /// A step's command holds no word.
    EmptyCommand,
    /// A glob of an artifact rule cannot be compiled.
    BadPattern,
    /// The job has no name.
    UnnamedJob,
    /// The schedule is not a cron expression that the scheduler accepts.
    BadSchedule,
}

impl LoadError {
    /// A sentence for the log.
    pub fn message(&self) -> (text: &'static str)
        ensures
            text@ == match *self {
                LoadError::EmptyCommand => "step command is empty"@,
                LoadError::BadPattern => "artifact pattern cannot be compiled"@,
                LoadError::UnnamedJob => "job has no name"@,
                LoadError::BadSchedule => "malformed schedule expression"@,
            },
    {
        match self {
            LoadError::EmptyCommand => "step command is empty",
            LoadError::BadPattern => "artifact pattern cannot be compiled",
            LoadError::UnnamedJob => "job has no name",
            LoadError::BadSchedule => "malformed schedule expression",
        }
    }
}

/// The mathematical value of a `Step`.
pub struct StepView {
    pub name: Seq<char>,
    pub command: Seq<char>,
}

/// One command of a job, with the name its output is filed under.
pub struct Step {
    name: String,
    command: String,
    argv: Vec<String>,
}

/// The first line of a step's output file.
pub open spec fn banner_text(name: Seq<char>) -> Seq<char> {
    "##################### STEP: "@ + name + " #####################"@
}

/// The name of a step's output file.
pub open spec fn log_name(name: Seq<char>) -> Seq<char> {
    name + ".output"@
}

impl View for Step {
    type V = StepView;

    closed spec fn view(&self) -> StepView {
        StepView { name: self.name@, command: self.command@ }
    }
}

impl Step {
    #[verifier::type_invariant]
    spec fn inv(self) -> bool {
        &&& views(self.argv@) == words(self.command@)
        &&& self.argv@.len() > 0
    }

    /// Makes a step. The name is sanitised; a command without a word is
    /// refused.
    pub fn new(name: &str, command: &str) -> (step: Result<Step, LoadError>)
        ensures
            step is Err <==> words(command@).len() == 0,
            step matches Err(e) ==> e == LoadError::EmptyCommand,
            step matches Ok(s) ==> s@ == (StepView { name: sanitized(name@), command: command@ }),
    {
        let argv = split_words(command);
        if argv.len() == 0 {
            return Err(LoadError::EmptyCommand);
        }
        Ok(Step { name: sanitize(name), command: String::from_str(command), argv })
    }

    /// The sanitised name.
    pub fn name(&self) -> (name: &str)
        ensures
            name@ == self@.name,
    {
        self.name.as_str()
    }

    /// The command line as given.
    pub fn command(&self) -> (command: &str)
        ensures
            command@ == self@.command,
    {
        self.command.as_str()
    }

    /// The words of the command line: the program, then its arguments.
    pub fn argv(&self) -> (argv: &Vec<String>)
        ensures
            views(argv@) == words(self@.command),
            argv@.len() > 0,
    {
        proof {
            use_type_invariant(self);
        }
        &self.argv
    }

    /// The program to run: the first word of the command line.
    pub fn program(&self) -> (program: &str)
        ensures
            words(self@.command).len() > 0,
            program@ == words(self@.command)[0],
    {
        proof {
            use_type_invariant(self);
        }
        self.argv[0].as_str()
    }

    /// The name of the file that takes the step's output.
    pub fn log_file_name(&self) -> (file: String)
        ensures
            file@ == log_name(self@.name),
    {
        let mut file = self.name.clone();
        file.append(".output");
        file
    }

    /// The line that opens the step's output file.
    pub fn banner(&self) -> (line: String)
        ensures
            line@ == banner_text(self@.name),
    {
        let mut line = String::from_str("##################### STEP: ");
        line.append(self.name.as_str());
        line.append(" #####################");
        line
    }
}

/// The mathematical value of an `ArtifactRule`.
pub struct ArtifactRuleView {
    pub workspace: Seq<char>,
    pub files: Seq<char>,
}

/// A directory to scan and the globs of the files to take from it.
pub struct ArtifactRule {
    workspace: String,
    files: String,
    patterns: Vec<Matcher>,
}

impl View for ArtifactRule {
    type V = ArtifactRuleView;

    closed spec fn view(&self) -> ArtifactRuleView {
        ArtifactRuleView { workspace: self.workspace@, files: self.files@ }
    }
}

/// Whether every glob of the comma-separated list `files` can be compiled.
pub open spec fn globs_compile(files: Seq<char>) -> bool {
    forall|i: int|
        0 <= i < trimmed_fields(files).len() ==> regex_valid(
            glob_regex(#[trigger] trimmed_fields(files)[i]),
        )
}

impl ArtifactRule {
    #[verifier::type_invariant]
    spec fn inv(self) -> bool {
        globs_of(self.patterns@) == trimmed_fields(self.files@)
    }

    /// Makes a rule from a workspace directory and a comma-separated list of
    /// globs. Each glob is trimmed and compiled; the rule is refused if one
    /// of them cannot be compiled.
    pub fn new(workspace: &str, files: &str) -> (rule: Result<ArtifactRule, LoadError>)
        ensures
            rule is Ok <==> globs_compile(files@),
            rule matches Err(e) ==> e == LoadError::BadPattern,
            rule matches Ok(r) ==> r@ == (ArtifactRuleView { workspace: workspace@, files: files@ }),
    {
        let globs = split_trimmed(files);
        let mut patterns: Vec<Matcher> = Vec::new();
        let mut i: usize = 0;
        while i < globs.len()
            invariant
                i <= globs.len(),
                views(globs@) == trimmed_fields(files@),
                globs_of(patterns@) == trimmed_fields(files@).take(i as int),
                forall|k: int|
                    0 <= k < i ==> regex_valid(glob_regex(#[trigger] trimmed_fields(files@)[k])),
            decreases globs.len() - i,
        {
            assert(views(globs@)[i as int] == globs@[i as int]@);
            match Matcher::compile(globs[i].as_str()) {
                Some(m) => {
                    assert(trimmed_fields(files@).take(i + 1) == trimmed_fields(files@).take(
                        i as int,
                    ).push(m.glob()));
                    patterns.push(m);
                },
                None => {
                    return Err(LoadError::BadPattern);
                },
            }
            i += 1;
        }
        assert(trimmed_fields(files@).take(globs.len() as int) == trimmed_fields(files@));
        Ok(
            ArtifactRule {
                workspace: String::from_str(workspace),
                files: String::from_str(files),
                patterns,
            },
        )
    }

    /// The directory to scan.
    pub fn workspace(&self) -> (workspace: &str)
        ensures
            workspace@ == self@.workspace,
    {
        self.workspace.as_str()
    }

    /// The comma-separated globs as given.
    pub fn files(&self) -> (files: &str)
        ensures
            files@ == self@.files,
    {
        self.files.as_str()
    }

    /// The compiled globs, in the order of the list.
    pub fn patterns(&self) -> (patterns: &Vec<Matcher>)
        ensures
            globs_of(patterns@) == trimmed_fields(self@.files),
    {
        proof {
            use_type_invariant(self);
        }
        &self.patterns
    }
}

/// The values of a sequence of steps.
pub open spec fn step_views(steps: Seq<Step>) -> Seq<StepView> {
    steps.map_values(|s: Step| s@)
}

/// The values of a sequence of artifact rules.
pub open spec fn rule_views(rules: Seq<ArtifactRule>) -> Seq<ArtifactRuleView> {
    rules.map_values(|r: ArtifactRule| r@)
}

/// The mathematical value of a `Job`.
pub struct JobView {
    pub name: Seq<char>,
    pub cron: Seq<char>,
    pub steps: Seq<StepView>,
    pub artifacts: Seq<ArtifactRuleView>,
}

/// A job definition: a name, a schedule, steps in the order they run, and
/// artifact rules in the order they are collected.
pub struct Job {
    name: String,
    cron: String,
    steps: Vec<Step>,
    artifacts: Vec<ArtifactRule>,
}

impl View for Job {
    type V = JobView;

    closed spec fn view(&self) -> JobView {
        JobView {
            name: self.name@,
            cron: self.cron@,
            steps: step_views(self.steps@),
            artifacts: rule_views(self.artifacts@),
        }
    }
}

/// What stands for a job name or a schedule that the definition leaves out.
pub open spec fn placeholder() -> Seq<char> {
    "Not_used"@
}

/// The text of an optional field, or the placeholder.
pub open spec fn or_placeholder(field: Option<Seq<char>>) -> Seq<char> {
    match field {
        Some(text) => text,
        None => placeholder(),
    }
}

impl Job {
    /// Makes a job definition. A name or schedule left out is replaced by a
    /// placeholder; the name is sanitised so that it can name a directory.
    pub fn new(
        name: Option<&str>,
        cron: Option<&str>,
        steps: Vec<Step>,
        artifacts: Vec<ArtifactRule>,
    ) -> (job: Job)
        ensures
            job@ == (JobView {
                name: sanitized(
                    or_placeholder(
                        match name {
                            Some(n) => Some(n@),
                            None => None,
                        },
                    ),
                ),
                cron: or_placeholder(
                    match cron {
                        Some(c) => Some(c@),
                        None => None,
                    },
                ),
                steps: step_views(steps@),
                artifacts: rule_views(artifacts@),
            }),
    {
        let name = match name {
            Some(n) => sanitize(n),
            None => sanitize("Not_used"),
        };
        let cron = match cron {
            Some(c) => String::from_str(c),
            None => String::from_str("Not_used"),
        };
        Job { name, cron, steps, artifacts }
    }

    /// The sanitised name, which also names the job's directory.
    pub fn name(&self) -> (name: &str)
        ensures
            name@ == self@.name,
    {
        self.name.as_str()
    }

    /// The schedule expression.
    pub fn cron(&self) -> (cron: &str)
        ensures
            cron@ == self@.cron,
    {
        self.cron.as_str()
    }

    /// The steps, in the order they run.
    pub fn steps(&self) -> (steps: &Vec<Step>)
        ensures
            step_views(steps@) == self@.steps,
    {
        &self.steps
    }

    /// The artifact rules, in the order they are collected.
    pub fn artifacts(&self) -> (rules: &Vec<ArtifactRule>)
        ensures
            rule_views(rules@) == self@.artifacts,
    {
        &self.artifacts
    }

    /// Where a run triggered in the minute `stamp` keeps its files, as the
    /// two path segments below the home directory: the job's directory,
    /// named after the job, and in it the run directory, named after the
    /// minute.
    pub fn run_directory(&self, stamp: &RunStamp) -> (segments: (String, String))
        ensures
            segments.0@ == self@.name,
            segments.1@ == stamp.text(),
    {
        (self.name.clone(), stamp.directory_name())
    }
}

/// How a run ended.
#[derive(Clone, Copy, PartialEq, Eq, Structural, Debug)]
pub enum RunOutcome {
    /// Every step ran.
    Completed,
    /// The job or run directory could not be made.
    DirectoryError,
    /// A step's process could not be spawned.
    ProcessSpawnError,
    /// A step's output file could not be created or written.
    LogWriteError,
}

/// Where a run stands.
#[derive(Clone, Copy, PartialEq, Eq, Structural, Debug)]
pub enum RunState {
    /// Waiting for the trigger.
    Idle,
    /// The run directory is being made.
    Preparing,
    /// The step with this index is running.
    Running(usize),
    /// The artifact rule with this index is being collected; the run will
    /// end with this outcome.
    Collecting(usize, RunOutcome),
    /// The run is over.
    Done(RunOutcome),
}

/// What happened outside since the last action was handed out.
#[derive(Clone, Copy, PartialEq, Eq, Structural, Debug)]
pub enum RunEvent {
    /// The job's trigger fired.
    Fired,
    /// The run directory exists.
    DirectoryReady,
    /// The job or run directory could not be made.
    DirectoryFailed,
    /// The step's process ended with this exit code.
    StepExited(i32),
    /// The step's process could not be spawned.
    SpawnFailed,
    /// The step's output file could not be created or written.
    LogFailed,
    /// The rule's workspace was walked and its copies attempted.
    Collected,
    /// A directory of the rule's workspace could not be read.
    WalkFailed,
}

/// What is to be done outside next.
#[derive(Clone, Copy, PartialEq, Eq, Structural, Debug)]
pub enum RunAction {
    /// Make the job directory, if it is missing, and the run directory.
    CreateRunDirectory,
    /// Run the step with this index.
    RunStep(usize),
    /// Collect the artifact rule with this index into the run directory.
    Collect(usize),
    /// Nothing is left to do: the run ended in this way.
    Finish(RunOutcome),
    /// The event does not belong to the state; nothing changed.
    Unexpected,
}

/// Where a run goes once the steps before `index` are over: to the step
/// `index`, or to the artifact rules if there is no such step.
pub open spec fn enter_step(steps: nat, rules: nat, index: nat) -> (RunState, RunAction) {
    if index < steps {
        (RunState::Running(index as usize), RunAction::RunStep(index as usize))
    } else {
        enter_rule(rules, 0, RunOutcome::Completed)
    }
}

/// Where a run goes once the rules before `index` are over: to the rule
/// `index`, or, if there is no such rule, to its end with `outcome`.
pub open spec fn enter_rule(rules: nat, index: nat, outcome: RunOutcome) -> (RunState, RunAction) {
    if index < rules {
        (RunState::Collecting(index as usize, outcome), RunAction::Collect(index as usize))
    } else {
        (RunState::Done(outcome), RunAction::Finish(outcome))
    }
}

/// One transition of a run of a job with `steps` steps and `rules` artifact
/// rules: the state after `event` and the action to take.
///
/// A step's exit code does not matter: the next step runs whatever it is.
/// A step that cannot be spawned, or whose output cannot be written, ends
/// the sequence of steps: the steps after it do not run, and the run ends
/// as failed once the artifact rules have been collected. A run whose
/// directory cannot be made ends at once. A workspace that cannot be walked
/// ends the collection of its rule only.
pub open spec fn run_transition(steps: nat, rules: nat, state: RunState, event: RunEvent) -> (
    RunState,
    RunAction,
) {
    match (state, event) {
        (RunState::Idle, RunEvent::Fired) => (RunState::Preparing, RunAction::CreateRunDirectory),
        (RunState::Preparing, RunEvent::DirectoryReady) => enter_step(steps, rules, 0),
        (RunState::Preparing, RunEvent::DirectoryFailed) => (
            RunState::Done(RunOutcome::DirectoryError),
            RunAction::Finish(RunOutcome::DirectoryError),
        ),
        (RunState::Running(i), RunEvent::StepExited(_)) => if i < steps {
            enter_step(steps, rules, (i + 1) as nat)
        } else {
            (state, RunAction::Unexpected)
        },
        (RunState::Running(i), RunEvent::SpawnFailed) => if i < steps {
            enter_rule(rules, 0, RunOutcome::ProcessSpawnError)
        } else {
            (state, RunAction::Unexpected)
        },
        (RunState::Running(i), RunEvent::LogFailed) => if i < steps {
            enter_rule(rules, 0, RunOutcome::LogWriteError)
        } else {
            (state, RunAction::Unexpected)
        },
        (RunState::Collecting(r, outcome), RunEvent::Collected) => if r < rules {
            enter_rule(rules, (r + 1) as nat, outcome)
        } else {
            (state, RunAction::Unexpected)
        },
        (RunState::Collecting(r, outcome), RunEvent::WalkFailed) => if r < rules {
            enter_rule(rules, (r + 1) as nat, outcome)
        } else {
            (state, RunAction::Unexpected)
        },
        _ => (state, RunAction::Unexpected),
    }
}

fn start_rule(rules: usize, index: usize, outcome: RunOutcome) -> (next: (RunState, RunAction))
    ensures
        next == enter_rule(rules as nat, index as nat, outcome),
{
    if index < rules {
        (RunState::Collecting(index, outcome), RunAction::Collect(index))
    } else {
        (RunState::Done(outcome), RunAction::Finish(outcome))
    }
}

fn start_step(steps: usize, rules: usize, index: usize) -> (next: (RunState, RunAction))
    ensures
        next == enter_step(steps as nat, rules as nat, index as nat),
{
    if index < steps {
        (RunState::Running(index), RunAction::RunStep(index))
    } else {
        start_rule(rules, 0, RunOutcome::Completed)
    }
}

/// Advances a run of `job` by one event: returns the state the run is in
/// afterwards and what is to be done next. The caller performs the action
/// and comes back with the event that tells how it went.
pub fn execute_job(job: &Job, state: RunState, event: RunEvent) -> (next: (RunState, RunAction))
    ensures
        next == run_transition(job@.steps.len(), job@.artifacts.len(), state, event),
{
    let steps = job.steps().len();
    let rules = job.artifacts().len();
    match (state, event) {
        (RunState::Idle, RunEvent::Fired) => (RunState::Preparing, RunAction::CreateRunDirectory),
        (RunState::Preparing, RunEvent::DirectoryReady) => start_step(steps, rules, 0),
        (RunState::Preparing, RunEvent::DirectoryFailed) => (
            RunState::Done(RunOutcome::DirectoryError),
            RunAction::Finish(RunOutcome::DirectoryError),
        ),
        (RunState::Running(i), RunEvent::StepExited(_)) => if i < steps {
            start_step(steps, rules, i + 1)
        } else {
            (state, RunAction::Unexpected)
        },
        (RunState::Running(i), RunEvent::SpawnFailed) => if i < steps {
            start_rule(rules, 0, RunOutcome::ProcessSpawnError)
        } else {
            (state, RunAction::Unexpected)
        },
        (RunState::Running(i), RunEvent::LogFailed) => if i < steps {
            start_rule(rules, 0, RunOutcome::LogWriteError)
        } else {
            (state, RunAction::Unexpected)
        },
        (RunState::Collecting(r, outcome), RunEvent::Collected) => if r < rules {
            start_rule(rules, r + 1, outcome)
        } else {
            (state, RunAction::Unexpected)
        },
        (RunState::Collecting(r, outcome), RunEvent::WalkFailed) => if r < rules {
            start_rule(rules, r + 1, outcome)
        } else {
            (state, RunAction::Unexpected)
        },
        _ => (state, RunAction::Unexpected),
    }
}

/// The state of a run that began in `Idle` and has seen `events`.
pub open spec fn state_after(steps: nat, rules: nat, events: Seq<RunEvent>) -> RunState
    decreases events.len(),
{
    if events.len() == 0 {
        RunState::Idle
    } else {
        run_transition(steps, rules, state_after(steps, rules, events.drop_last()), events.last()).0
    }
}

/// The action that answered the event `events[at]` of a run that began in
/// `Idle`.
pub open spec fn action_at(steps: nat, rules: nat, events: Seq<RunEvent>, at: int) -> RunAction {
    run_transition(steps, rules, state_after(steps, rules, events.take(at)), events[at]).1
}

/// How many steps a run in `state` has started, at least.
pub open spec fn steps_started(steps: nat, state: RunState) -> nat {
    match state {
        RunState::Idle => 0,
        RunState::Preparing => 0,
        RunState::Running(i) => (i + 1) as nat,
        RunState::Collecting(_, _) => steps,
        RunState::Done(_) => steps,
    }
}

/// A transition never takes a run back, and it starts the step `j` only
/// from a state in which exactly the steps before `j` have been started.
pub proof fn lemma_transition_advances(steps: nat, rules: nat, state: RunState, event: RunEvent)
    requires
        steps <= usize::MAX,
    ensures
        steps_started(steps, state) <= steps_started(
            steps,
            run_transition(steps, rules, state, event).0,
        ),
        run_transition(steps, rules, state, event).1 matches RunAction::RunStep(j) ==> j < steps
            && steps_started(steps, state) == j && run_transition(steps, rules, state, event).0
            == RunState::Running(j),
{
}

/// The number of steps started never goes down as a run goes on.
pub proof fn lemma_run_advances(steps: nat, rules: nat, events: Seq<RunEvent>, m: int, n: int)
    requires
        steps <= usize::MAX,
        0 <= m <= n <= events.len(),
    ensures
        steps_started(steps, state_after(steps, rules, events.take(m))) <= steps_started(
            steps,
            state_after(steps, rules, events.take(n)),
        ),
    decreases n - m,
{
    if m < n {
        lemma_run_advances(steps, rules, events, m, n - 1);
        assert(events.take(n).drop_last() == events.take(n - 1));
        lemma_transition_advances(
            steps,
            rules,
            state_after(steps, rules, events.take(n - 1)),
            events[n - 1],
        );
    }
}

/// Steps run in the order of their declaration: whatever happens during a
/// run, a step that is started later than another has the greater index.
pub proof fn lemma_steps_run_in_order(
    steps: nat,
    rules: nat,
    events: Seq<RunEvent>,
    earlier: int,
    later: int,
    a: usize,
    b: usize,
)
    requires
        steps <= usize::MAX,
        0 <= earlier < later < events.len(),
        action_at(steps, rules, events, earlier) == RunAction::RunStep(a),
        action_at(steps, rules, events, later) == RunAction::RunStep(b),
    ensures
        a < b,
{
    let before = state_after(steps, rules, events.take(earlier));
    lemma_transition_advances(steps, rules, before, events[earlier]);
    assert(events.take(earlier + 1).drop_last() == events.take(earlier));
    lemma_run_advances(steps, rules, events, earlier + 1, later);
    lemma_transition_advances(
        steps,
        rules,
        state_after(steps, rules, events.take(later)),
        events[later],
    );
}

/// However the sequence of steps ends, be it that the last step exits or
/// that a step cannot be spawned or its output not written, the artifact
/// rules are collected next, beginning with the first.
pub proof fn lemma_collection_follows_the_steps(
    steps: nat,
    rules: nat,
    index: usize,
    event: RunEvent,
)
    requires
        index < steps,
        rules > 0,
        event is SpawnFailed || event is LogFailed || (event is StepExited && index + 1 == steps),
    ensures
        run_transition(steps, rules, RunState::Running(index), event).1 == RunAction::Collect(0),
{
}

/// The exit code of a step does not decide what follows it: the next step
/// runs, or, after the last step, the collection begins.
pub proof fn lemma_exit_code_is_ignored(steps: nat, rules: nat, index: usize, code: i32)
    requires
        index < steps,
    ensures
        run_transition(steps, rules, RunState::Running(index), RunEvent::StepExited(code))
            == enter_step(steps, rules, (index + 1) as nat),
        index + 1 < steps ==> run_transition(
            steps,
            rules,
            RunState::Running(index),
            RunEvent::StepExited(code),
        ) == (RunState::Running((index + 1) as usize), RunAction::RunStep((index + 1) as usize)),
{
}

} // verus!
