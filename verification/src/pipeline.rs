//! The release pipeline: a fixed, strictly ordered list of fallible steps.
//! The pipeline halts at the first failing step; there is no rollback and
//! no retry. The state machine here decides which step comes next and what
//! each step runs; performing a step (spawning the tool, touching files)
//! is the caller's business, reported back as a success or failure.

use vstd::prelude::*;
use vstd::string::*;

verus! {

/// How many steps a full release runs.
pub const STEP_COUNT: usize = 11;

/// The steps of the release pipeline, in the order they run.
#[derive(Clone, Copy, PartialEq, Eq, Structural, Debug)]
pub enum Step {
    /// Probe that the helper-runner crate is installed.
    CheckHelperInstalled,
    /// Ask the changelog helper for its own version.
    QueryHelperVersion,
    /// Ask the changelog helper for the next bumped version.
    QueryBumpedVersion,
    /// Require the authentication token in the environment.
    CheckToken,
    /// Rewrite the manifest's version field.
    RewriteManifest,
    /// Regenerate the dependency lock file.
    RegenerateLockfile,
    /// Regenerate the changelog file.
    GenerateChangelog,
    /// Commit the working tree with a message naming the new version.
    CommitChanges,
    /// Tag the commit with the new version string.
    TagVersion,
    /// Push the current branch to the remote.
    PushBranch,
    /// Push the new tag to the remote.
    PushTag,
}

/// The step run at position `i` of the pipeline.
pub open spec fn step_at_spec(i: int) -> Step {
    if i == 0 {
        Step::CheckHelperInstalled
    } else if i == 1 {
        Step::QueryHelperVersion
    } else if i == 2 {
        Step::QueryBumpedVersion
    } else if i == 3 {
        Step::CheckToken
    } else if i == 4 {
        Step::RewriteManifest
    } else if i == 5 {
        Step::RegenerateLockfile
    } else if i == 6 {
        Step::GenerateChangelog
    } else if i == 7 {
        Step::CommitChanges
    } else if i == 8 {
        Step::TagVersion
    } else if i == 9 {
        Step::PushBranch
    } else {
        Step::PushTag
    }
}

/// The run state of one release: how many steps have completed, and
/// whether a step has failed. No other state crosses step boundaries; the
/// bumped version string is captured by the caller.
pub struct ReleasePipeline {
    /// Steps completed so far; also the index of the next step owed.
    pub completed: usize,
    /// Whether some step reported a non-zero exit.
    pub failed: bool,
}

impl ReleasePipeline {
    /// The count of completed steps never passes the end of the list.
    pub open spec fn wf(&self) -> bool {
        self.completed <= STEP_COUNT
    }

    /// The next step still owed: `None` once the run is over, because
    /// every step completed or because an earlier step failed.
    pub open spec fn next_step_spec(&self) -> Option<Step> {
        if self.failed || self.completed >= STEP_COUNT {
            None
        } else {
            Some(step_at_spec(self.completed as int))
        }
    }

    /// Whether the run is over.
    pub open spec fn finished_spec(&self) -> bool {
        self.failed || self.completed == STEP_COUNT
    }

    /// A fresh pipeline: nothing run, nothing failed.
    pub fn new() -> (p: Self)
        ensures
            p.wf(),
            p.completed == 0,
            !p.failed,
    {
        ReleasePipeline { completed: 0, failed: false }
    }

    /// The next step to run, if the run is not over.
    pub fn next_step(&self) -> (r: Option<Step>)
        requires
            self.wf(),
        ensures
            r == self.next_step_spec(),
    {
        if self.failed || self.completed >= STEP_COUNT {
            None
        } else {
            Some(step_at(self.completed))
        }
    }

    /// Records the outcome of the step just handed out: a success moves on
    /// to the next step, a failure halts the run for good.
    pub fn record(&mut self, success: bool)
        requires
            old(self).wf(),
            old(self).next_step_spec() is Some,
        ensures
            final(self).wf(),
            final(self).failed == !success,
            final(self).completed == if success {
                old(self).completed + 1
            } else {
                old(self).completed as int
            },
    {
        if success {
            self.completed = self.completed + 1;
        } else {
            self.failed = true;
        }
    }

    /// Whether the run is over.
    pub fn finished(&self) -> (r: bool)
        ensures
            r == self.finished_spec(),
    {
        self.failed || self.completed == STEP_COUNT
    }

    /// The process exit code the run ends with: 1 after any failure, 0
    /// after full completion.
    pub fn exit_code(&self) -> (r: i32)
        requires
            self.finished_spec(),
        ensures
            r == 1 <==> self.failed,
            r == 0 <==> !self.failed,
    {
        if self.failed {
            1
        } else {
            0
        }
    }
}

/// The step run at position `i`.
pub fn step_at(i: usize) -> (s: Step)
    requires
        i < STEP_COUNT,
    ensures
        s == step_at_spec(i as int),
{
    if i == 0 {
        Step::CheckHelperInstalled
    } else if i == 1 {
        Step::QueryHelperVersion
    } else if i == 2 {
        Step::QueryBumpedVersion
    } else if i == 3 {
        Step::CheckToken
    } else if i == 4 {
        Step::RewriteManifest
    } else if i == 5 {
        Step::RegenerateLockfile
    } else if i == 6 {
        Step::GenerateChangelog
    } else if i == 7 {
        Step::CommitChanges
    } else if i == 8 {
        Step::TagVersion
    } else if i == 9 {
        Step::PushBranch
    } else {
        Step::PushTag
    }
}

/// The commit message embedding the new version.
pub open spec fn commit_message_spec(version: Seq<char>) -> Seq<char> {
    "chore(release): bump to version "@ + version
}

/// The subprocess a step runs, as program and arguments, with the captured
/// version string spliced in where the step needs it. The token check and
/// the manifest rewrite run no subprocess.
pub open spec fn command_spec(step: Step, version: Seq<char>) -> Option<(Seq<char>, Seq<Seq<char>>)> {
    match step {
        Step::CheckHelperInstalled => Some(("cargo"@, seq!["bin"@])),
        Step::QueryHelperVersion => Some(("cargo"@, seq!["bin"@, "git-cliff"@, "--version"@])),
        Step::QueryBumpedVersion => Some(
            ("cargo"@, seq!["bin"@, "git-cliff"@, "--bumped-version"@]),
        ),
        Step::CheckToken => None,
        Step::RewriteManifest => None,
        Step::RegenerateLockfile => Some(("cargo"@, seq!["generate-lockfile"@])),
        Step::GenerateChangelog => Some(
            ("cargo"@, seq!["bin"@, "git-cliff"@, "--bump"@, "--output"@, "CHANGELOG.md"@]),
        ),
        Step::CommitChanges => Some(("git"@, seq!["commit"@, "-am"@, commit_message_spec(version)])),
        Step::TagVersion => Some(("git"@, seq!["tag"@, version])),
        Step::PushBranch => Some(("git"@, seq!["push"@, "origin"@, "main"@])),
        Step::PushTag => Some(("git"@, seq!["push"@, "origin"@, "tag"@, version])),
    }
}

/// The commit message embedding the new version.
pub fn commit_message(version: &str) -> (r: String)
    ensures
        r@ == commit_message_spec(version@),
{
    let mut m = String::from_str("chore(release): bump to version ");
    m.append(version);
    m
}

/// The subprocess a step runs: its program and argument list, or `None`
/// for the two steps that run none.
pub fn command_for(step: Step, version: &str) -> (r: Option<(String, Vec<String>)>)
    ensures
        (match command_spec(step, version@) {
            Some(c) => r is Some && r->Some_0.0@ == c.0 && r->Some_0.1.deep_view() == c.1,
            None => r is None,
        }),
{
    match step {
        Step::CheckHelperInstalled => {
            let mut args: Vec<String> = Vec::new();
            args.push(String::from_str("bin"));
            proof {
                assert(args.deep_view() =~~= seq!["bin"@]);
            }
            Some((String::from_str("cargo"), args))
        },
        Step::QueryHelperVersion => {
            let mut args: Vec<String> = Vec::new();
            args.push(String::from_str("bin"));
            args.push(String::from_str("git-cliff"));
            args.push(String::from_str("--version"));
            proof {
                assert(args.deep_view() =~~= seq!["bin"@, "git-cliff"@, "--version"@]);
            }
            Some((String::from_str("cargo"), args))
        },
        Step::QueryBumpedVersion => {
            let mut args: Vec<String> = Vec::new();
            args.push(String::from_str("bin"));
            args.push(String::from_str("git-cliff"));
            args.push(String::from_str("--bumped-version"));
            proof {
                assert(args.deep_view() =~~= seq!["bin"@, "git-cliff"@, "--bumped-version"@]);
            }
            Some((String::from_str("cargo"), args))
        },
        Step::CheckToken => None,
        Step::RewriteManifest => None,
        Step::RegenerateLockfile => {
            let mut args: Vec<String> = Vec::new();
            args.push(String::from_str("generate-lockfile"));
            proof {
                assert(args.deep_view() =~~= seq!["generate-lockfile"@]);
            }
            Some((String::from_str("cargo"), args))
        },
        Step::GenerateChangelog => {
            let mut args: Vec<String> = Vec::new();
            args.push(String::from_str("bin"));
            args.push(String::from_str("git-cliff"));
            args.push(String::from_str("--bump"));
            args.push(String::from_str("--output"));
            args.push(String::from_str("CHANGELOG.md"));
            proof {
                assert(args.deep_view() =~~= seq![
                    "bin"@,
                    "git-cliff"@,
                    "--bump"@,
                    "--output"@,
                    "CHANGELOG.md"@,
                ]);
            }
            Some((String::from_str("cargo"), args))
        },
        Step::CommitChanges => {
            let mut args: Vec<String> = Vec::new();
            args.push(String::from_str("commit"));
            args.push(String::from_str("-am"));
            args.push(commit_message(version));
            proof {
                assert(args.deep_view() =~~= seq![
                    "commit"@,
                    "-am"@,
                    commit_message_spec(version@),
                ]);
            }
            Some((String::from_str("git"), args))
        },
        Step::TagVersion => {
            let mut args: Vec<String> = Vec::new();
            args.push(String::from_str("tag"));
            args.push(String::from_str(version));
            proof {
                assert(args.deep_view() =~~= seq!["tag"@, version@]);
            }
            Some((String::from_str("git"), args))
        },
        Step::PushBranch => {
            let mut args: Vec<String> = Vec::new();
            args.push(String::from_str("push"));
            args.push(String::from_str("origin"));
            args.push(String::from_str("main"));
            proof {
                assert(args.deep_view() =~~= seq!["push"@, "origin"@, "main"@]);
            }
            Some((String::from_str("git"), args))
        },
        Step::PushTag => {
            let mut args: Vec<String> = Vec::new();
            args.push(String::from_str("push"));
            args.push(String::from_str("origin"));
            args.push(String::from_str("tag"));
            args.push(String::from_str(version));
            proof {
                assert(args.deep_view() =~~= seq!["push"@, "origin"@, "tag"@, version@]);
            }
            Some((String::from_str("git"), args))
        },
    }
}

/// The progress line printed before a step runs.
pub open spec fn progress_message_spec(step: Step) -> Seq<char> {
    match step {
        Step::CheckHelperInstalled => "Check if the crate cargo-run-bin is installed"@,
        Step::QueryHelperVersion => "Parse git-cliff version"@,
        Step::QueryBumpedVersion => "Parse the next bumped version"@,
        Step::CheckToken => "Check Github Token environment variable"@,
        Step::RewriteManifest => "Update Cargo.toml version"@,
        Step::RegenerateLockfile => "Update Cargo.lock"@,
        Step::GenerateChangelog => "Generate changelog"@,
        Step::CommitChanges => "Commiting changes"@,
        Step::TagVersion => "Tagging the new version"@,
        Step::PushBranch => "Pushing the new version to the repository"@,
        Step::PushTag => "Pushing the new tag to the repository"@,
    }
}

/// The error line printed when a step fails, before the run aborts.
pub open spec fn error_message_spec(step: Step) -> Seq<char> {
    match step {
        Step::CheckHelperInstalled => "cargo-run-bin crate is not installed"@,
        Step::QueryHelperVersion => "Failed to get git-cliff version"@,
        Step::QueryBumpedVersion => "Failed to get version with git-cliff"@,
        Step::CheckToken => "GITHUB_TOKEN environment variable is not set"@,
        Step::RewriteManifest => "Failed to update Cargo.toml"@,
        Step::RegenerateLockfile => "Failed to update Cargo.lock"@,
        Step::GenerateChangelog => "Failed to generate changelog with git-cliff"@,
        Step::CommitChanges => "Failed to commit the new version"@,
        Step::TagVersion => "Failed to tag the new version"@,
        Step::PushBranch => "Failed to push the new version"@,
        Step::PushTag => "Failed to push the new tag"@,
    }
}

/// The progress line printed before a step runs.
pub fn progress_message(step: Step) -> (r: &'static str)
    ensures
        r@ == progress_message_spec(step),
{
    match step {
        Step::CheckHelperInstalled => "Check if the crate cargo-run-bin is installed",
        Step::QueryHelperVersion => "Parse git-cliff version",
        Step::QueryBumpedVersion => "Parse the next bumped version",
        Step::CheckToken => "Check Github Token environment variable",
        Step::RewriteManifest => "Update Cargo.toml version",
        Step::RegenerateLockfile => "Update Cargo.lock",
        Step::GenerateChangelog => "Generate changelog",
        Step::CommitChanges => "Commiting changes",
        Step::TagVersion => "Tagging the new version",
        Step::PushBranch => "Pushing the new version to the repository",
        Step::PushTag => "Pushing the new tag to the repository",
    }
}

/// The error line printed when a step fails, before the run aborts.
pub fn error_message(step: Step) -> (r: &'static str)
    ensures
        r@ == error_message_spec(step),
{
    match step {
        Step::CheckHelperInstalled => "cargo-run-bin crate is not installed",
        Step::QueryHelperVersion => "Failed to get git-cliff version",
        Step::QueryBumpedVersion => "Failed to get version with git-cliff",
        Step::CheckToken => "GITHUB_TOKEN environment variable is not set",
        Step::RewriteManifest => "Failed to update Cargo.toml",
        Step::RegenerateLockfile => "Failed to update Cargo.lock",
        Step::GenerateChangelog => "Failed to generate changelog with git-cliff",
        Step::CommitChanges => "Failed to commit the new version",
        Step::TagVersion => "Failed to tag the new version",
        Step::PushBranch => "Failed to push the new version",
        Step::PushTag => "Failed to push the new tag",
    }
}

/// The state the pipeline reaches when driven by the step outcomes in
/// `outcomes` (`true` for a step that exited zero): each outcome feeds the
/// next owed step until the run is over or the outcomes run out.
pub open spec fn run_from(p: ReleasePipeline, outcomes: Seq<bool>) -> ReleasePipeline
    decreases outcomes.len(),
{
    if outcomes.len() == 0 || p.failed || p.completed >= STEP_COUNT {
        p
    } else {
        let next = ReleasePipeline {
            completed: if outcomes[0] {
                (p.completed + 1) as usize
            } else {
                p.completed
            },
            failed: !outcomes[0],
        };
        run_from(next, outcomes.skip(1))
    }
}

/// Drives a fresh pipeline with the given step outcomes, recording each
/// in turn until the run is over or the outcomes run out: the executable
/// counterpart of `run_from`.
pub fn drive(outcomes: &Vec<bool>) -> (p: ReleasePipeline)
    ensures
        p == run_from(ReleasePipeline { completed: 0, failed: false }, outcomes@),
{
    let ghost start = ReleasePipeline { completed: 0, failed: false };
    let mut p = ReleasePipeline::new();
    let mut i: usize = 0;
    proof {
        assert(outcomes@.skip(0) =~= outcomes@);
    }
    while i < outcomes.len() && !p.finished()
        invariant
            i <= outcomes@.len(),
            p.wf(),
            run_from(p, outcomes@.skip(i as int)) == run_from(start, outcomes@),
        decreases outcomes@.len() - i,
    {
        let success = outcomes[i];
        proof {
            assert(outcomes@.skip(i as int)[0] == outcomes@[i as int]);
            assert(outcomes@.skip(i as int).skip(1) =~= outcomes@.skip(i + 1));
        }
        p.record(success);
        i += 1;
    }
    proof {
        if i == outcomes@.len() {
            assert(outcomes@.skip(i as int) =~= Seq::<bool>::empty());
        }
        assert(run_from(p, outcomes@.skip(i as int)) == p);
    }
    p
}

proof fn lemma_run_from_halts(p: ReleasePipeline, outcomes: Seq<bool>, f: int)
    requires
        !p.failed,
        p.completed + f < STEP_COUNT,
        0 <= f < outcomes.len(),
        !outcomes[f],
        forall|j: int| 0 <= j < f ==> outcomes[j],
    ensures
        run_from(p, outcomes).failed,
        run_from(p, outcomes).completed == p.completed + f,
    decreases f,
{
    if f == 0 {
        let next = ReleasePipeline { completed: p.completed, failed: true };
        assert(run_from(p, outcomes) == run_from(next, outcomes.skip(1)));
        assert(run_from(next, outcomes.skip(1)) == next);
    } else {
        let next = ReleasePipeline { completed: (p.completed + 1) as usize, failed: false };
        assert(forall|j: int| 0 <= j < f - 1 ==> outcomes.skip(1)[j] == outcomes[j + 1]);
        lemma_run_from_halts(next, outcomes.skip(1), f - 1);
    }
}

proof fn lemma_run_from_completes(p: ReleasePipeline, outcomes: Seq<bool>)
    requires
        !p.failed,
        p.completed <= STEP_COUNT,
        outcomes.len() >= STEP_COUNT - p.completed,
        forall|j: int| 0 <= j < STEP_COUNT - p.completed ==> outcomes[j],
    ensures
        !run_from(p, outcomes).failed,
        run_from(p, outcomes).completed == STEP_COUNT,
    decreases STEP_COUNT - p.completed,
{
    if p.completed == STEP_COUNT {
    } else {
        let next = ReleasePipeline { completed: (p.completed + 1) as usize, failed: false };
        assert(forall|j: int|
            0 <= j < STEP_COUNT - next.completed ==> outcomes.skip(1)[j] == outcomes[j + 1]);
        lemma_run_from_completes(next, outcomes.skip(1));
    }
}

/// A step returning a non-zero exit halts the run at once. With the first
/// failing outcome at position `f`, the run attempts the steps up to and
/// including `f` and no later one — exactly `f` steps complete — and the
/// run ends failed, so its exit code is 1.
pub proof fn lemma_halts_at_first_failure(outcomes: Seq<bool>, f: int)
    requires
        0 <= f < STEP_COUNT,
        f < outcomes.len(),
        !outcomes[f],
        forall|j: int| 0 <= j < f ==> outcomes[j],
    ensures
        run_from(ReleasePipeline { completed: 0, failed: false }, outcomes).failed,
        run_from(ReleasePipeline { completed: 0, failed: false }, outcomes).completed == f,
{
    lemma_run_from_halts(ReleasePipeline { completed: 0, failed: false }, outcomes, f);
}

/// With every step succeeding, the run completes all steps and ends
/// without failure, so its exit code is 0.
pub proof fn lemma_all_steps_complete(outcomes: Seq<bool>)
    requires
        outcomes.len() >= STEP_COUNT,
        forall|j: int| 0 <= j < STEP_COUNT ==> outcomes[j],
    ensures
        !run_from(ReleasePipeline { completed: 0, failed: false }, outcomes).failed,
        run_from(ReleasePipeline { completed: 0, failed: false }, outcomes).completed == STEP_COUNT,
{
    lemma_run_from_completes(ReleasePipeline { completed: 0, failed: false }, outcomes);
}

} // verus!
