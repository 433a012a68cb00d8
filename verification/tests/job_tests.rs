use friday::clock::RunStamp;
use friday::job::{
    execute_job, ArtifactRule, Job, LoadError, RunAction, RunEvent, RunOutcome, RunState, Step,
};

fn job(commands: &[(&str, &str)], rules: &[(&str, &str)]) -> Job {
    let steps = commands.iter().map(|(n, c)| Step::new(n, c).expect("step is accepted")).collect();
    let artifacts =
        rules.iter().map(|(w, f)| ArtifactRule::new(w, f).expect("rule is accepted")).collect();
    Job::new(Some("build"), Some("0 * * * * *"), steps, artifacts)
}

fn run(job: &Job, events: &[RunEvent]) -> (RunState, Vec<RunAction>) {
    let mut state = RunState::Idle;
    let mut actions = Vec::new();
    for event in events {
        let (next, action) = execute_job(job, state, *event);
        state = next;
        actions.push(action);
    }
    (state, actions)
}

#[test]
fn step_name_is_sanitised() {
    let step = Step::new("unit tests", "cargo test").expect("step is accepted");
    assert_eq!(step.name(), "unit_tests");
    assert_eq!(step.command(), "cargo test");
}

#[test]
fn command_is_split_into_program_and_arguments() {
    let step = Step::new("t", "  cargo   test --all ").expect("step is accepted");
    assert_eq!(step.program(), "cargo");
    assert_eq!(step.argv(), &vec!["cargo".to_string(), "test".to_string(), "--all".to_string()]);
}

#[test]
fn empty_command_is_refused() {
    assert_eq!(Step::new("t", "").err(), Some(LoadError::EmptyCommand));
    assert_eq!(Step::new("t", " \t\n").err(), Some(LoadError::EmptyCommand));
}

#[test]
fn log_file_is_named_after_the_step() {
    let step = Step::new("compile", "true").expect("step is accepted");
    assert_eq!(step.log_file_name(), "compile.output");
    let step = Step::new("build.v2", "true").expect("step is accepted");
    assert_eq!(step.log_file_name(), "build.v2.output");
}

#[test]
fn banner_names_the_step() {
    let step = Step::new("compile", "true").expect("step is accepted");
    assert_eq!(step.banner(), "##################### STEP: compile #####################");
}

#[test]
fn rule_keeps_its_fields_and_compiles_its_globs() {
    let rule = ArtifactRule::new("/tmp/ws", " *.tar.gz ,*.log").expect("rule is accepted");
    assert_eq!(rule.workspace(), "/tmp/ws");
    assert_eq!(rule.files(), " *.tar.gz ,*.log");
    let globs: Vec<&str> = rule.patterns().iter().map(|m| m.pattern()).collect();
    assert_eq!(globs, vec!["*.tar.gz", "*.log"]);
}

#[test]
fn job_name_is_sanitised() {
    let j = Job::new(Some("nightly build"), Some("0 0 3 * * *"), Vec::new(), Vec::new());
    assert_eq!(j.name(), "nightly_build");
    assert_eq!(j.cron(), "0 0 3 * * *");
    assert!(j.steps().is_empty());
    assert!(j.artifacts().is_empty());
}

#[test]
fn missing_name_and_schedule_get_the_placeholder() {
    let j = Job::new(None, None, Vec::new(), Vec::new());
    assert_eq!(j.name(), "Not_used");
    assert_eq!(j.cron(), "Not_used");
}

#[test]
fn load_errors_have_messages() {
    assert_eq!(LoadError::EmptyCommand.message(), "step command is empty");
    assert_eq!(LoadError::BadPattern.message(), "artifact pattern cannot be compiled");
    assert_eq!(LoadError::UnnamedJob.message(), "job has no name");
    assert_eq!(LoadError::BadSchedule.message(), "malformed schedule expression");
}

#[test]
fn one_step_job_runs_its_step_and_finishes() {
    let j = job(&[("compile", "true")], &[]);
    let (state, actions) =
        run(&j, &[RunEvent::Fired, RunEvent::DirectoryReady, RunEvent::StepExited(0)]);
    assert_eq!(
        actions,
        vec![
            RunAction::CreateRunDirectory,
            RunAction::RunStep(0),
            RunAction::Finish(RunOutcome::Completed),
        ]
    );
    assert_eq!(state, RunState::Done(RunOutcome::Completed));
    assert_eq!(j.steps()[0].log_file_name(), "compile.output");
    assert_eq!(j.steps()[0].banner(), "##################### STEP: compile #####################");
    assert_eq!(j.steps()[0].program(), "true");
}

#[test]
fn steps_run_in_declaration_order() {
    let j = job(&[("A", "a"), ("B", "b"), ("C", "c")], &[]);
    let (_, actions) = run(
        &j,
        &[
            RunEvent::Fired,
            RunEvent::DirectoryReady,
            RunEvent::StepExited(0),
            RunEvent::StepExited(0),
            RunEvent::StepExited(0),
        ],
    );
    assert_eq!(
        actions,
        vec![
            RunAction::CreateRunDirectory,
            RunAction::RunStep(0),
            RunAction::RunStep(1),
            RunAction::RunStep(2),
            RunAction::Finish(RunOutcome::Completed),
        ]
    );
}

#[test]
fn non_zero_exit_does_not_stop_the_next_step() {
    let j = job(&[("fail", "exit 1"), ("ok", "echo ok")], &[]);
    let (state, action) = execute_job(&j, RunState::Running(0), RunEvent::StepExited(1));
    assert_eq!(state, RunState::Running(1));
    assert_eq!(action, RunAction::RunStep(1));
    assert_eq!(j.steps()[1].log_file_name(), "ok.output");
}

#[test]
fn rules_are_collected_after_the_steps_in_order() {
    let j = job(&[("s", "true")], &[("/ws1", "*.log"), ("/ws2", "*.txt")]);
    let (state, actions) = run(
        &j,
        &[
            RunEvent::Fired,
            RunEvent::DirectoryReady,
            RunEvent::StepExited(3),
            RunEvent::Collected,
            RunEvent::Collected,
        ],
    );
    assert_eq!(
        actions,
        vec![
            RunAction::CreateRunDirectory,
            RunAction::RunStep(0),
            RunAction::Collect(0),
            RunAction::Collect(1),
            RunAction::Finish(RunOutcome::Completed),
        ]
    );
    assert_eq!(state, RunState::Done(RunOutcome::Completed));
}

#[test]
fn a_failed_walk_ends_only_its_own_rule() {
    let j = job(&[], &[("/ws1", "*.log"), ("/ws2", "*.txt")]);
    let collecting = RunState::Collecting(0, RunOutcome::Completed);
    let (state, action) = execute_job(&j, collecting, RunEvent::WalkFailed);
    assert_eq!(state, RunState::Collecting(1, RunOutcome::Completed));
    assert_eq!(action, RunAction::Collect(1));
    let (state, action) = execute_job(&j, state, RunEvent::WalkFailed);
    assert_eq!(state, RunState::Done(RunOutcome::Completed));
    assert_eq!(action, RunAction::Finish(RunOutcome::Completed));
}

#[test]
fn a_job_without_steps_goes_straight_to_its_rules() {
    let j = job(&[], &[("/ws", "*")]);
    let (state, action) = execute_job(&j, RunState::Preparing, RunEvent::DirectoryReady);
    assert_eq!(state, RunState::Collecting(0, RunOutcome::Completed));
    assert_eq!(action, RunAction::Collect(0));
}

#[test]
fn an_empty_job_finishes_once_its_directory_exists() {
    let j = job(&[], &[]);
    let (state, action) = execute_job(&j, RunState::Preparing, RunEvent::DirectoryReady);
    assert_eq!(state, RunState::Done(RunOutcome::Completed));
    assert_eq!(action, RunAction::Finish(RunOutcome::Completed));
}

#[test]
fn directory_failure_ends_the_run() {
    let j = job(&[("s", "true")], &[("/ws", "*")]);
    let (state, action) = execute_job(&j, RunState::Preparing, RunEvent::DirectoryFailed);
    assert_eq!(state, RunState::Done(RunOutcome::DirectoryError));
    assert_eq!(action, RunAction::Finish(RunOutcome::DirectoryError));
}

#[test]
fn directory_failure_skips_steps_and_rules() {
    let j = job(&[("s", "true")], &[("/ws", "*")]);
    let (_, actions) = run(&j, &[RunEvent::Fired, RunEvent::DirectoryFailed]);
    assert_eq!(
        actions,
        vec![RunAction::CreateRunDirectory, RunAction::Finish(RunOutcome::DirectoryError)]
    );
}

#[test]
fn spawn_failure_skips_the_remaining_steps() {
    let j = job(&[("a", "nope"), ("b", "true")], &[("/ws", "*")]);
    let (state, actions) = run(
        &j,
        &[RunEvent::Fired, RunEvent::DirectoryReady, RunEvent::SpawnFailed, RunEvent::Collected],
    );
    assert_eq!(
        actions,
        vec![
            RunAction::CreateRunDirectory,
            RunAction::RunStep(0),
            RunAction::Collect(0),
            RunAction::Finish(RunOutcome::ProcessSpawnError),
        ]
    );
    assert_eq!(state, RunState::Done(RunOutcome::ProcessSpawnError));
}

#[test]
fn spawn_failure_without_rules_ends_the_run() {
    let j = job(&[("a", "nope"), ("b", "true")], &[]);
    let (state, action) = execute_job(&j, RunState::Running(0), RunEvent::SpawnFailed);
    assert_eq!(state, RunState::Done(RunOutcome::ProcessSpawnError));
    assert_eq!(action, RunAction::Finish(RunOutcome::ProcessSpawnError));
}

#[test]
fn log_failure_skips_the_remaining_steps() {
    let j = job(&[("a", "true"), ("b", "true"), ("c", "true")], &[("/ws", "*")]);
    let (state, action) = execute_job(&j, RunState::Running(1), RunEvent::LogFailed);
    assert_eq!(state, RunState::Collecting(0, RunOutcome::LogWriteError));
    assert_eq!(action, RunAction::Collect(0));
    let (state, action) = execute_job(&j, state, RunEvent::Collected);
    assert_eq!(state, RunState::Done(RunOutcome::LogWriteError));
    assert_eq!(action, RunAction::Finish(RunOutcome::LogWriteError));
}

#[test]
fn events_that_do_not_fit_change_nothing() {
    let j = job(&[("a", "true")], &[]);
    for (state, event) in [
        (RunState::Idle, RunEvent::StepExited(0)),
        (RunState::Preparing, RunEvent::Fired),
        (RunState::Running(0), RunEvent::Collected),
        (RunState::Running(5), RunEvent::StepExited(0)),
        (RunState::Collecting(0, RunOutcome::Completed), RunEvent::Collected),
        (RunState::Collecting(0, RunOutcome::Completed), RunEvent::StepExited(0)),
        (RunState::Done(RunOutcome::Completed), RunEvent::Fired),
    ] {
        assert_eq!(execute_job(&j, state, event), (state, RunAction::Unexpected));
    }
}

#[test]
fn a_rule_with_a_glob_that_cannot_be_compiled_is_refused() {
    let files = format!("*.log, {}", "*".repeat(400_000));
    assert_eq!(ArtifactRule::new("/ws", &files).err(), Some(LoadError::BadPattern));
}

#[test]
fn run_directory_is_named_after_job_and_minute() {
    let j = Job::new(Some("nightly build"), Some("0 0 3 * * *"), Vec::new(), Vec::new());
    let stamp = RunStamp::new(2024, 12, 31, 23, 5).expect("a calendar minute");
    let (job_dir, run_dir) = j.run_directory(&stamp);
    assert_eq!(job_dir, "nightly_build");
    assert_eq!(run_dir, "2024-12-31.23:05");
}
