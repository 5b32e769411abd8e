use release_healthcheck::pipeline::{
    command_for, commit_message, drive, error_message, progress_message, step_at, ReleasePipeline,
    Step, STEP_COUNT,
};

#[test]
fn steps_run_in_fixed_order() {
    let expected = [
        Step::CheckHelperInstalled,
        Step::QueryHelperVersion,
        Step::QueryBumpedVersion,
        Step::CheckToken,
        Step::RewriteManifest,
        Step::RegenerateLockfile,
        Step::GenerateChangelog,
        Step::CommitChanges,
        Step::TagVersion,
        Step::PushBranch,
        Step::PushTag,
    ];
    assert_eq!(expected.len(), STEP_COUNT);
    let mut p = ReleasePipeline::new();
    for (i, step) in expected.iter().enumerate() {
        assert_eq!(p.next_step(), Some(*step));
        assert_eq!(step_at(i), *step);
        assert!(!p.finished());
        p.record(true);
    }
    assert!(p.finished());
    assert_eq!(p.next_step(), None);
    assert_eq!(p.exit_code(), 0);
}

#[test]
fn failure_halts_the_run_immediately() {
    let mut p = ReleasePipeline::new();
    p.record(true);
    p.record(true);
    assert_eq!(p.next_step(), Some(Step::QueryBumpedVersion));
    p.record(false);
    assert!(p.finished());
    assert_eq!(p.next_step(), None);
    assert_eq!(p.exit_code(), 1);
    assert_eq!(p.completed, 2);
}

#[test]
fn first_step_failure_runs_nothing_else() {
    let mut p = ReleasePipeline::new();
    p.record(false);
    assert!(p.finished());
    assert_eq!(p.next_step(), None);
    assert_eq!(p.exit_code(), 1);
    assert_eq!(p.completed, 0);
}

#[test]
fn driven_run_halts_at_first_failure() {
    // Steps after the failing fifth outcome are never consumed.
    let outcomes = vec![true, true, true, true, false, true, true, true, true, true, true];
    let p = drive(&outcomes);
    assert!(p.failed);
    assert_eq!(p.completed, 4);
    assert_eq!(p.next_step(), None);
    assert_eq!(p.exit_code(), 1);
}

#[test]
fn driven_run_completes_on_all_successes() {
    let outcomes = vec![true; STEP_COUNT];
    let p = drive(&outcomes);
    assert!(!p.failed);
    assert_eq!(p.completed, STEP_COUNT);
    assert_eq!(p.exit_code(), 0);
}

#[test]
fn driven_run_ignores_surplus_outcomes() {
    let outcomes = vec![false; 20];
    let p = drive(&outcomes);
    assert!(p.failed);
    assert_eq!(p.completed, 0);
}

#[test]
fn commands_match_the_invoked_tools() {
    let (prog, args) = command_for(Step::CheckHelperInstalled, "1.2.3").unwrap();
    assert_eq!(prog, "cargo");
    assert_eq!(args, vec!["bin"]);

    let (prog, args) = command_for(Step::QueryHelperVersion, "1.2.3").unwrap();
    assert_eq!(prog, "cargo");
    assert_eq!(args, vec!["bin", "git-cliff", "--version"]);

    let (prog, args) = command_for(Step::QueryBumpedVersion, "1.2.3").unwrap();
    assert_eq!(prog, "cargo");
    assert_eq!(args, vec!["bin", "git-cliff", "--bumped-version"]);

    assert!(command_for(Step::CheckToken, "1.2.3").is_none());
    assert!(command_for(Step::RewriteManifest, "1.2.3").is_none());

    let (prog, args) = command_for(Step::RegenerateLockfile, "1.2.3").unwrap();
    assert_eq!(prog, "cargo");
    assert_eq!(args, vec!["generate-lockfile"]);

    let (prog, args) = command_for(Step::GenerateChangelog, "1.2.3").unwrap();
    assert_eq!(prog, "cargo");
    assert_eq!(args, vec!["bin", "git-cliff", "--bump", "--output", "CHANGELOG.md"]);

    let (prog, args) = command_for(Step::CommitChanges, "1.2.3").unwrap();
    assert_eq!(prog, "git");
    assert_eq!(
        args,
        vec!["commit", "-am", "chore(release): bump to version 1.2.3"]
    );

    let (prog, args) = command_for(Step::TagVersion, "1.2.3").unwrap();
    assert_eq!(prog, "git");
    assert_eq!(args, vec!["tag", "1.2.3"]);

    let (prog, args) = command_for(Step::PushBranch, "1.2.3").unwrap();
    assert_eq!(prog, "git");
    assert_eq!(args, vec!["push", "origin", "main"]);

    let (prog, args) = command_for(Step::PushTag, "1.2.3").unwrap();
    assert_eq!(prog, "git");
    assert_eq!(args, vec!["push", "origin", "tag", "1.2.3"]);
}

#[test]
fn commit_message_embeds_the_version() {
    assert_eq!(
        commit_message("2.0.0"),
        "chore(release): bump to version 2.0.0"
    );
}

#[test]
fn each_step_has_progress_and_error_lines() {
    assert_eq!(
        progress_message(Step::RewriteManifest),
        "Update Cargo.toml version"
    );
    assert_eq!(
        error_message(Step::CheckToken),
        "GITHUB_TOKEN environment variable is not set"
    );
    for i in 0..STEP_COUNT {
        let step = step_at(i);
        assert!(!progress_message(step).is_empty());
        assert!(!error_message(step).is_empty());
    }
}
