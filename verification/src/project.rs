//! The steps that are carried out in a crate's source directory, and the cargo
//! commands among them.

use vstd::prelude::*;
use vstd::string::*;
use crate::deps::DepType;
use crate::text;

verus! {

/// How a step went: it succeeded or what it asked for is there; it ran and
/// failed or what it asked for is not there; or it could not be carried out.
#[derive(Debug, Clone, Copy, PartialEq, Eq, Structural)]
pub enum Reply {
    Yes,
    No,
    Error,
}

/// The files of a crate's source directory that the steps touch.
#[derive(Debug, Clone, Copy, PartialEq, Eq, Structural)]
pub enum ProjectFile {
    Manifest,
    Lock,
    ManifestBaseline,
    LockBaseline,
}

impl ProjectFile {
    pub open spec fn name(self) -> Seq<char> {
        match self {
            ProjectFile::Manifest => "Cargo.toml"@,
            ProjectFile::Lock => "Cargo.lock"@,
            ProjectFile::ManifestBaseline => "Cargo.toml.baseline"@,
            ProjectFile::LockBaseline => "Cargo.lock.baseline"@,
        }
    }

    /// The file's name in the source directory.
    pub fn file_name(&self) -> (name: &'static str)
        ensures
            name@ == self.name(),
    {
        match self {
            ProjectFile::Manifest => "Cargo.toml",
            ProjectFile::Lock => "Cargo.lock",
            ProjectFile::ManifestBaseline => "Cargo.toml.baseline",
            ProjectFile::LockBaseline => "Cargo.lock.baseline",
        }
    }
}

/// The cargo commands that compile a crate.
#[derive(Debug, Clone, Copy, PartialEq, Eq, Structural)]
pub enum BuildTask {
    Build,
    BuildLocked,
    Test,
    Bench,
}

/// For what the right to run cargo is taken.
#[derive(Debug, Clone, Copy, PartialEq, Eq, Structural)]
pub enum Permit {
    BaselineBuild,
    BaselineBuildInit,
    BaselineTest,
    CargoUpdate,
    VerifyBuild,
    VerifyDev,
}

/// In which part of the work a cargo command runs.
#[derive(Debug, Clone, Copy, PartialEq, Eq, Structural)]
pub enum Stage {
    BaselineBuild,
    BaselineTest,
    BaselineBench,
    DepUpdate,
    VerifyBuild,
    VerifyTest,
    VerifyBench,
}

/// One step in the source directory.
#[derive(Debug, Clone, Copy, PartialEq, Eq, Structural)]
pub enum ProjectAction {
    /// Is the file there?
    Exists(ProjectFile),
    /// Remove the file.
    Remove(ProjectFile),
    /// Overwrite the second file with the first.
    Copy(ProjectFile, ProjectFile),
    /// Write down whether the crate came with a lock file.
    RecordLock(i32),
    /// Wait for the right to run cargo; a right that is held is given up first.
    Acquire(Permit),
    /// Run a cargo command.
    Run(BuildTask, Stage),
    /// Run the cargo command that moves the dependency under test.
    Update,
    /// The work is done, with this result.
    Finish(bool),
    /// The last step could not be carried out, and the work cannot go on.
    Abort,
}

/// How long a cargo command may run, in seconds.
pub const CARGO_CMD_TIMEOUT_SECS: u64 = 1200;

impl Permit {
    pub open spec fn name(self) -> Seq<char> {
        match self {
            Permit::BaselineBuild => "baseline_build"@,
            Permit::BaselineBuildInit => "baseline_build_init"@,
            Permit::BaselineTest => "baseline_test"@,
            Permit::CargoUpdate => "cargo_update"@,
            Permit::VerifyBuild => "verify_build"@,
            Permit::VerifyDev => "verify_dev"@,
        }
    }

    /// The label of the permit in the log.
    pub fn label(&self) -> (label: &'static str)
        ensures
            label@ == self.name(),
    {
        match self {
            Permit::BaselineBuild => "baseline_build",
            Permit::BaselineBuildInit => "baseline_build_init",
            Permit::BaselineTest => "baseline_test",
            Permit::CargoUpdate => "cargo_update",
            Permit::VerifyBuild => "verify_build",
            Permit::VerifyDev => "verify_dev",
        }
    }
}

impl Stage {
    pub open spec fn name(self) -> Seq<char> {
        match self {
            Stage::BaselineBuild => "baseline_build"@,
            Stage::BaselineTest => "baseline_test"@,
            Stage::BaselineBench => "baseline_bench"@,
            Stage::DepUpdate => "dep_update"@,
            Stage::VerifyBuild => "verify_build"@,
            Stage::VerifyTest => "verify_test"@,
            Stage::VerifyBench => "verify_bench"@,
        }
    }

    /// The label of the stage in the log.
    pub fn label(&self) -> (label: &'static str)
        ensures
            label@ == self.name(),
    {
        match self {
            Stage::BaselineBuild => "baseline_build",
            Stage::BaselineTest => "baseline_test",
            Stage::BaselineBench => "baseline_bench",
            Stage::DepUpdate => "dep_update",
            Stage::VerifyBuild => "verify_build",
            Stage::VerifyTest => "verify_test",
            Stage::VerifyBench => "verify_bench",
        }
    }

    /// The label under which the start of the command is logged.
    pub fn spawned_stage(&self) -> (label: String)
        ensures
            label@ == self.name() + "_spawned"@,
    {
        self.label().to_owned().concat("_spawned")
    }

    /// The label under which it is logged that the command took too long.
    pub fn timeout_stage(&self) -> (label: String)
        ensures
            label@ == self.name() + "_timeout"@,
    {
        self.label().to_owned().concat("_timeout")
    }

    /// The message of the error that a command which took too long ends in.
    pub fn timeout_error(&self) -> (message: String)
        ensures
            message@ == "cargo_timeout:"@ + (self.name() + "_timeout"@),
    {
        "cargo_timeout:".to_owned().concat(self.timeout_stage().as_str())
    }
}

/// The arguments of a compile command. Every one but the first build of a crate
/// without a lock file runs with the lock file as it is.
pub open spec fn build_args(task: BuildTask) -> Seq<Seq<char>> {
    match task {
        BuildTask::Build => seq!["+1.95.0"@, "build"@],
        BuildTask::BuildLocked => seq!["+1.95.0"@, "build"@, "--locked"@],
        BuildTask::Test => seq!["+1.95.0"@, "test"@, "--no-run"@, "--locked"@],
        BuildTask::Bench => seq!["+1.95.0"@, "bench"@, "--no-run"@, "--locked"@],
    }
}

/// The arguments of the command that moves one dependency to one version.
pub open spec fn update_args(dep: Seq<char>, version: Seq<char>) -> Seq<Seq<char>> {
    seq!["+1.95.0"@, "update"@, "-p"@, dep, "--precise"@, version]
}

/// The views of a list of pairs of strings, in order.
pub open spec fn pairs(v: Seq<(String, String)>) -> Seq<(Seq<char>, Seq<char>)> {
    v.map_values(|p: (String, String)| (p.0@, p.1@))
}

/// The arguments for cargo.
pub fn cargo_build_args(task: BuildTask) -> (args: Vec<String>)
    ensures
        text::texts(args@) == build_args(task),
{
    let mut args: Vec<String> = Vec::new();
    args.push("+1.95.0".to_owned());
    match task {
        BuildTask::Build => {
            args.push("build".to_owned());
        },
        BuildTask::BuildLocked => {
            args.push("build".to_owned());
            args.push("--locked".to_owned());
        },
        BuildTask::Test => {
            args.push("test".to_owned());
            args.push("--no-run".to_owned());
            args.push("--locked".to_owned());
        },
        BuildTask::Bench => {
            args.push("bench".to_owned());
            args.push("--no-run".to_owned());
            args.push("--locked".to_owned());
        },
    }
    assert(text::texts(args@) =~= build_args(task));
    args
}

/// The variables that a compile command runs with: its own cargo home and
/// target directory, no incremental builds, and a bounded number of jobs.
pub open spec fn build_env(cargo_home: Seq<char>, target_dir: Seq<char>) -> Seq<
    (Seq<char>, Seq<char>),
> {
    seq![
        ("CARGO_HOME"@, cargo_home),
        ("CARGO_TARGET_DIR"@, target_dir),
        ("CARGO_INCREMENTAL"@, "0"@),
        ("CARGO_BUILD_JOBS"@, "5"@),
    ]
}

/// The variables that an update runs with: its own cargo home.
pub open spec fn update_env(cargo_home: Seq<char>) -> Seq<(Seq<char>, Seq<char>)> {
    seq![("CARGO_HOME"@, cargo_home)]
}

/// The variables that a compile command runs with.
pub fn cargo_build_env(cargo_home: &str, target_dir: &str) -> (env: Vec<(String, String)>)
    ensures
        pairs(env@) == build_env(cargo_home@, target_dir@),
{
    let mut env: Vec<(String, String)> = Vec::new();
    env.push(("CARGO_HOME".to_owned(), cargo_home.to_owned()));
    env.push(("CARGO_TARGET_DIR".to_owned(), target_dir.to_owned()));
    env.push(("CARGO_INCREMENTAL".to_owned(), "0".to_owned()));
    env.push(("CARGO_BUILD_JOBS".to_owned(), "5".to_owned()));
    assert(pairs(env@) =~= build_env(cargo_home@, target_dir@));
    env
}

/// The arguments for cargo that move `dep` to `version`.
pub fn cargo_update_args(dep: &str, version: &str) -> (args: Vec<String>)
    ensures
        text::texts(args@) == update_args(dep@, version@),
{
    let mut args: Vec<String> = Vec::new();
    args.push("+1.95.0".to_owned());
    args.push("update".to_owned());
    args.push("-p".to_owned());
    args.push(dep.to_owned());
    args.push("--precise".to_owned());
    args.push(version.to_owned());
    assert(text::texts(args@) =~= update_args(dep@, version@));
    args
}

/// The variables that an update runs with.
pub fn cargo_update_env(cargo_home: &str) -> (env: Vec<(String, String)>)
    ensures
        pairs(env@) == update_env(cargo_home@),
{
    let mut env: Vec<(String, String)> = Vec::new();
    env.push(("CARGO_HOME".to_owned(), cargo_home.to_owned()));
    assert(pairs(env@) =~= update_env(cargo_home@));
    env
}

/// Where the verification of an update stands.
#[derive(Debug, Clone, Copy, PartialEq, Eq, Structural)]
pub enum VerifyStep {
    TakeBuildPermit,
    Build,
    TakeDevPermit,
    Test,
    Bench,
    Finished(bool),
    Failed,
}

impl VerifyStep {
    /// The first step: a build for normal and build dependencies, tests and
    /// benches for dev dependencies.
    pub open spec fn first(dep_type: DepType) -> VerifyStep {
        match dep_type {
            DepType::Normal | DepType::Build => VerifyStep::TakeBuildPermit,
            DepType::Dev => VerifyStep::TakeDevPermit,
        }
    }

    pub open spec fn doing(self) -> ProjectAction {
        match self {
            VerifyStep::TakeBuildPermit => ProjectAction::Acquire(Permit::VerifyBuild),
            VerifyStep::Build => ProjectAction::Run(BuildTask::BuildLocked, Stage::VerifyBuild),
            VerifyStep::TakeDevPermit => ProjectAction::Acquire(Permit::VerifyDev),
            VerifyStep::Test => ProjectAction::Run(BuildTask::Test, Stage::VerifyTest),
            VerifyStep::Bench => ProjectAction::Run(BuildTask::Bench, Stage::VerifyBench),
            VerifyStep::Finished(ok) => ProjectAction::Finish(ok),
            VerifyStep::Failed => ProjectAction::Abort,
        }
    }

    /// What follows when the step went as `reply` says. A command that cannot
    /// be run, or takes too long, ends the verification without a result.
    pub open spec fn after(self, reply: Reply) -> VerifyStep {
        match (self, reply) {
            (VerifyStep::Finished(ok), _) => VerifyStep::Finished(ok),
            (VerifyStep::Failed, _) => VerifyStep::Failed,
            (_, Reply::Error) => VerifyStep::Failed,
            (VerifyStep::TakeBuildPermit, Reply::Yes) => VerifyStep::Build,
            (VerifyStep::TakeBuildPermit, Reply::No) => VerifyStep::Failed,
            (VerifyStep::TakeDevPermit, Reply::Yes) => VerifyStep::Test,
            (VerifyStep::TakeDevPermit, Reply::No) => VerifyStep::Failed,
            (VerifyStep::Build, Reply::Yes) => VerifyStep::Finished(true),
            (VerifyStep::Test, Reply::Yes) => VerifyStep::Bench,
            (VerifyStep::Bench, Reply::Yes) => VerifyStep::Finished(true),
            (_, Reply::No) => VerifyStep::Finished(false),
        }
    }

    pub fn start(dep_type: &DepType) -> (step: VerifyStep)
        ensures
            step == VerifyStep::first(*dep_type),
    {
        match dep_type {
            DepType::Normal | DepType::Build => VerifyStep::TakeBuildPermit,
            DepType::Dev => VerifyStep::TakeDevPermit,
        }
    }

    pub fn action(&self) -> (action: ProjectAction)
        ensures
            action == self.doing(),
    {
        match self {
            VerifyStep::TakeBuildPermit => ProjectAction::Acquire(Permit::VerifyBuild),
            VerifyStep::Build => ProjectAction::Run(BuildTask::BuildLocked, Stage::VerifyBuild),
            VerifyStep::TakeDevPermit => ProjectAction::Acquire(Permit::VerifyDev),
            VerifyStep::Test => ProjectAction::Run(BuildTask::Test, Stage::VerifyTest),
            VerifyStep::Bench => ProjectAction::Run(BuildTask::Bench, Stage::VerifyBench),
            VerifyStep::Finished(ok) => ProjectAction::Finish(*ok),
            VerifyStep::Failed => ProjectAction::Abort,
        }
    }

    pub fn next(&self, reply: Reply) -> (step: VerifyStep)
        ensures
            step == self.after(reply),
    {
        match self {
            VerifyStep::TakeBuildPermit => match reply {
                Reply::Yes => VerifyStep::Build,
                _ => VerifyStep::Failed,
            },
            VerifyStep::TakeDevPermit => match reply {
                Reply::Yes => VerifyStep::Test,
                _ => VerifyStep::Failed,
            },
            VerifyStep::Test => match reply {
                Reply::Yes => VerifyStep::Bench,
                Reply::No => VerifyStep::Finished(false),
                Reply::Error => VerifyStep::Failed,
            },
            VerifyStep::Build | VerifyStep::Bench => match reply {
                Reply::Yes => VerifyStep::Finished(true),
                Reply::No => VerifyStep::Finished(false),
                Reply::Error => VerifyStep::Failed,
            },
            VerifyStep::Finished(ok) => VerifyStep::Finished(*ok),
            VerifyStep::Failed => VerifyStep::Failed,
        }
    }
}

/// Where the verification of an update ends that starts at `step`, when each
/// step goes as `replies` says.
pub open spec fn verified(step: VerifyStep, replies: spec_fn(VerifyStep) -> Reply, steps: nat) -> VerifyStep
    decreases steps,
{
    if steps == 0 {
        step
    } else {
        verified(step.after(replies(step)), replies, (steps - 1) as nat)
    }
}

/// A verification takes three steps at most. An update of a normal or build
/// dependency is good exactly when the build succeeds, one of a dev dependency
/// exactly when tests and benches both compile; the benches are not tried
/// after the tests failed. No result comes out exactly when the permit or a
/// command that was reached could not be had.
pub proof fn law_verify_outcome(dep_type: DepType, replies: spec_fn(VerifyStep) -> Reply)
    ensures
        ({
            let end = verified(VerifyStep::first(dep_type), replies, 3);
            if dep_type == DepType::Dev {
                &&& end == VerifyStep::Finished(true) <==> replies(VerifyStep::TakeDevPermit)
                    == Reply::Yes && replies(VerifyStep::Test) == Reply::Yes && replies(
                    VerifyStep::Bench,
                ) == Reply::Yes
                &&& end == VerifyStep::Finished(false) <==> replies(VerifyStep::TakeDevPermit)
                    == Reply::Yes && (replies(VerifyStep::Test) == Reply::No || (replies(
                    VerifyStep::Test,
                ) == Reply::Yes && replies(VerifyStep::Bench) == Reply::No))
                &&& end == VerifyStep::Failed || end is Finished
            } else {
                &&& end == VerifyStep::Finished(true) <==> replies(VerifyStep::TakeBuildPermit)
                    == Reply::Yes && replies(VerifyStep::Build) == Reply::Yes
                &&& end == VerifyStep::Finished(false) <==> replies(VerifyStep::TakeBuildPermit)
                    == Reply::Yes && replies(VerifyStep::Build) == Reply::No
                &&& end == VerifyStep::Failed || end is Finished
            }
        }),
{
    reveal_with_fuel(verified, 4);
}

/// Every command of a verification runs with the lock file as it is.
pub proof fn law_verify_is_locked(step: VerifyStep)
    ensures
        step.doing() matches ProjectAction::Run(task, _) ==> build_args(task).contains("--locked"@),
{
    match step {
        VerifyStep::Build => {
            assert(build_args(BuildTask::BuildLocked)[2] == "--locked"@);
        },
        VerifyStep::Test => {
            assert(build_args(BuildTask::Test)[3] == "--locked"@);
        },
        VerifyStep::Bench => {
            assert(build_args(BuildTask::Bench)[3] == "--locked"@);
        },
        _ => {},
    }
}

/// Where the move of a dependency to another version stands.
#[derive(Debug, Clone, Copy, PartialEq, Eq, Structural)]
pub enum UpdateStep {
    TakePermit,
    Update,
    Finished(bool),
    Failed,
}

impl UpdateStep {
    pub open spec fn doing(self) -> ProjectAction {
        match self {
            UpdateStep::TakePermit => ProjectAction::Acquire(Permit::CargoUpdate),
            UpdateStep::Update => ProjectAction::Update,
            UpdateStep::Finished(ok) => ProjectAction::Finish(ok),
            UpdateStep::Failed => ProjectAction::Abort,
        }
    }

    /// What follows when the step went as `reply` says: the result is whether
    /// the command succeeded, and there is none where it could not be run.
    pub open spec fn after(self, reply: Reply) -> UpdateStep {
        match self {
            UpdateStep::TakePermit => if reply == Reply::Yes {
                UpdateStep::Update
            } else {
                UpdateStep::Failed
            },
            UpdateStep::Update => if reply == Reply::Error {
                UpdateStep::Failed
            } else {
                UpdateStep::Finished(reply == Reply::Yes)
            },
            UpdateStep::Finished(ok) => UpdateStep::Finished(ok),
            UpdateStep::Failed => UpdateStep::Failed,
        }
    }

    pub fn action(&self) -> (action: ProjectAction)
        ensures
            action == self.doing(),
    {
        match self {
            UpdateStep::TakePermit => ProjectAction::Acquire(Permit::CargoUpdate),
            UpdateStep::Update => ProjectAction::Update,
            UpdateStep::Finished(ok) => ProjectAction::Finish(*ok),
            UpdateStep::Failed => ProjectAction::Abort,
        }
    }

    pub fn next(&self, reply: Reply) -> (step: UpdateStep)
        ensures
            step == self.after(reply),
    {
        match self {
            UpdateStep::TakePermit => match reply {
                Reply::Yes => UpdateStep::Update,
                _ => UpdateStep::Failed,
            },
            UpdateStep::Update => match reply {
                Reply::Yes => UpdateStep::Finished(true),
                Reply::No => UpdateStep::Finished(false),
                Reply::Error => UpdateStep::Failed,
            },
            UpdateStep::Finished(ok) => UpdateStep::Finished(*ok),
            UpdateStep::Failed => UpdateStep::Failed,
        }
    }
}

/// Where the return to the baseline stands.
#[derive(Debug, Clone, Copy, PartialEq, Eq, Structural)]
pub enum RestoreStep {
    FindManifest,
    CopyManifest,
    FindLock,
    CopyLock,
    Finished,
    Failed,
}

impl RestoreStep {
    pub open spec fn doing(self) -> ProjectAction {
        match self {
            RestoreStep::FindManifest => ProjectAction::Exists(ProjectFile::ManifestBaseline),
            RestoreStep::CopyManifest => ProjectAction::Copy(
                ProjectFile::ManifestBaseline,
                ProjectFile::Manifest,
            ),
            RestoreStep::FindLock => ProjectAction::Exists(ProjectFile::LockBaseline),
            RestoreStep::CopyLock => ProjectAction::Copy(
                ProjectFile::LockBaseline,
                ProjectFile::Lock,
            ),
            RestoreStep::Finished => ProjectAction::Finish(true),
            RestoreStep::Failed => ProjectAction::Abort,
        }
    }

    /// Each file is put back where its baseline is there, the manifest first.
    pub open spec fn after(self, reply: Reply) -> RestoreStep {
        match self {
            RestoreStep::FindManifest => if reply == Reply::Yes {
                RestoreStep::CopyManifest
            } else {
                RestoreStep::FindLock
            },
            RestoreStep::CopyManifest => if reply == Reply::Yes {
                RestoreStep::FindLock
            } else {
                RestoreStep::Failed
            },
            RestoreStep::FindLock => if reply == Reply::Yes {
                RestoreStep::CopyLock
            } else {
                RestoreStep::Finished
            },
            RestoreStep::CopyLock => if reply == Reply::Yes {
                RestoreStep::Finished
            } else {
                RestoreStep::Failed
            },
            RestoreStep::Finished => RestoreStep::Finished,
            RestoreStep::Failed => RestoreStep::Failed,
        }
    }

    pub fn action(&self) -> (action: ProjectAction)
        ensures
            action == self.doing(),
    {
        match self {
            RestoreStep::FindManifest => ProjectAction::Exists(ProjectFile::ManifestBaseline),
            RestoreStep::CopyManifest => ProjectAction::Copy(
                ProjectFile::ManifestBaseline,
                ProjectFile::Manifest,
            ),
            RestoreStep::FindLock => ProjectAction::Exists(ProjectFile::LockBaseline),
            RestoreStep::CopyLock => ProjectAction::Copy(
                ProjectFile::LockBaseline,
                ProjectFile::Lock,
            ),
            RestoreStep::Finished => ProjectAction::Finish(true),
            RestoreStep::Failed => ProjectAction::Abort,
        }
    }

    pub fn next(&self, reply: Reply) -> (step: RestoreStep)
        ensures
            step == self.after(reply),
    {
        let yes = reply == Reply::Yes;
        match self {
            RestoreStep::FindManifest => if yes {
                RestoreStep::CopyManifest
            } else {
                RestoreStep::FindLock
            },
            RestoreStep::CopyManifest => if yes {
                RestoreStep::FindLock
            } else {
                RestoreStep::Failed
            },
            RestoreStep::FindLock => if yes {
                RestoreStep::CopyLock
            } else {
                RestoreStep::Finished
            },
            RestoreStep::CopyLock => if yes {
                RestoreStep::Finished
            } else {
                RestoreStep::Failed
            },
            RestoreStep::Finished => RestoreStep::Finished,
            RestoreStep::Failed => RestoreStep::Failed,
        }
    }
}

/// Where the return to the baseline ends that starts at `step`, when each step
/// goes as `replies` says.
pub open spec fn restored(step: RestoreStep, replies: spec_fn(RestoreStep) -> Reply, steps: nat) -> RestoreStep
    decreases steps,
{
    if steps == 0 {
        step
    } else {
        restored(step.after(replies(step)), replies, (steps - 1) as nat)
    }
}

/// The return to the baseline takes four steps at most, and succeeds exactly
/// when every baseline file that is there could be copied back.
pub proof fn law_restore_outcome(replies: spec_fn(RestoreStep) -> Reply)
    ensures
        ({
            let end = restored(RestoreStep::FindManifest, replies, 4);
            &&& end == RestoreStep::Finished <==> (replies(RestoreStep::FindManifest) == Reply::Yes
                ==> replies(RestoreStep::CopyManifest) == Reply::Yes) && (replies(
                RestoreStep::FindLock,
            ) == Reply::Yes ==> replies(RestoreStep::CopyLock) == Reply::Yes)
            &&& end == RestoreStep::Finished || end == RestoreStep::Failed
        }),
{
    reveal_with_fuel(restored, 5);
}

impl ProjectAction {
    /// Whether the action runs cargo.
    pub open spec fn runs_cargo(self) -> bool {
        self is Run || self is Update
    }
}

/// Cargo runs only while the right to run it is held: a verification and an
/// update run it right after the right was granted, or right after another
/// command.
pub proof fn law_commands_hold_the_permit(
    dep_type: DepType,
    verify: VerifyStep,
    update: UpdateStep,
    reply: Reply,
)
    ensures
        !VerifyStep::first(dep_type).doing().runs_cargo(),
        verify.after(reply).doing().runs_cargo() ==> verify.doing().runs_cargo() || (
        verify.doing() is Acquire && reply == Reply::Yes),
        !UpdateStep::TakePermit.doing().runs_cargo(),
        update.after(reply).doing().runs_cargo() ==> update.doing().runs_cargo() || (
        update.doing() is Acquire && reply == Reply::Yes),
{
}

/// The files of a source directory that are there, with what they hold.
pub type Files = Map<ProjectFile, Seq<u8>>;

/// What came of an action: how it went, and the lock file that a cargo command
/// left behind where it wrote one.
pub struct Happened {
    pub reply: Reply,
    pub lock: Option<Seq<u8>>,
}

/// The files with a lock file that cargo wrote.
pub open spec fn with_lock(files: Files, lock: Option<Seq<u8>>) -> Files {
    match lock {
        Some(content) => files.insert(ProjectFile::Lock, content),
        None => files,
    }
}

impl ProjectAction {
    /// The files after the action. Of the cargo commands only the update and the
    /// build that does not run with the lock file as it is write the lock file;
    /// none writes another of the files.
    pub open spec fn leaves(self, files: Files, happened: Happened) -> Files {
        match self {
            ProjectAction::Copy(from, to) => if happened.reply == Reply::Yes {
                files.insert(to, files[from])
            } else {
                files
            },
            ProjectAction::Remove(file) => if happened.reply == Reply::Yes {
                files.remove(file)
            } else {
                files
            },
            ProjectAction::Run(BuildTask::Build, _) => with_lock(files, happened.lock),
            ProjectAction::Update => with_lock(files, happened.lock),
            _ => files,
        }
    }

    /// Whether the answer tells of the files as they are: a file is found exactly
    /// where it is there, and only such a file is copied.
    pub open spec fn is_true_of(self, files: Files, happened: Happened) -> bool {
        match self {
            ProjectAction::Exists(file) => happened.reply == Reply::Yes <==> files.contains_key(
                file,
            ),
            ProjectAction::Copy(from, _) => happened.reply == Reply::Yes ==> files.contains_key(
                from,
            ),
            _ => true,
        }
    }
}

/// A return to the baseline, and the files.
pub struct Restoring {
    pub step: RestoreStep,
    pub files: Files,
}

/// Where a return to the baseline gets with these answers.
pub open spec fn restoring(files: Files, answers: Seq<Happened>) -> Restoring
    decreases answers.len(),
{
    if answers.len() == 0 {
        Restoring { step: RestoreStep::FindManifest, files }
    } else {
        let before = restoring(files, answers.drop_last());
        Restoring {
            step: before.step.after(answers.last().reply),
            files: before.step.doing().leaves(before.files, answers.last()),
        }
    }
}

/// Whether each answer tells of the files as they are.
pub open spec fn restore_answered(files: Files, answers: Seq<Happened>) -> bool
    decreases answers.len(),
{
    answers.len() > 0 ==> {
        let before = restoring(files, answers.drop_last());
        &&& restore_answered(files, answers.drop_last())
        &&& before.step.doing().is_true_of(before.files, answers.last())
    }
}

/// Whether `file` is as its baseline was, where there was one.
pub open spec fn put_back(
    before: Files,
    after: Files,
    file: ProjectFile,
    baseline: ProjectFile,
) -> bool {
    before.contains_key(baseline) ==> after.contains_key(file) && after[file] == before[baseline]
}

/// The files that the return to the baseline does not write.
pub open spec fn baselines_stay(before: Files, after: Files) -> bool {
    &&& forall|file: ProjectFile|
        file == ProjectFile::ManifestBaseline || file == ProjectFile::LockBaseline ==> (
        #[trigger] after.contains_key(file) <==> before.contains_key(file))
    &&& forall|file: ProjectFile|
        (file == ProjectFile::ManifestBaseline || file == ProjectFile::LockBaseline)
            && before.contains_key(file) ==> #[trigger] after[file] == before[file]
}

/// After a return to the baseline the manifest and the lock file are what their
/// baselines are, where there are such, and the baselines are as they were: every
/// experiment starts from the same files.
pub proof fn law_restore_puts_the_files_back(files: Files, answers: Seq<Happened>)
    requires
        restore_answered(files, answers),
    ensures
        baselines_stay(files, restoring(files, answers).files),
        restoring(files, answers).step == RestoreStep::FindLock || restoring(files, answers).step
            == RestoreStep::CopyLock || restoring(files, answers).step == RestoreStep::Finished
            ==> put_back(
            files,
            restoring(files, answers).files,
            ProjectFile::Manifest,
            ProjectFile::ManifestBaseline,
        ),
        restoring(files, answers).step == RestoreStep::Finished ==> put_back(
            files,
            restoring(files, answers).files,
            ProjectFile::Lock,
            ProjectFile::LockBaseline,
        ),
    decreases answers.len(),
{
    if answers.len() > 0 {
        law_restore_puts_the_files_back(files, answers.drop_last());
        let before = restoring(files, answers.drop_last());
        assert(before.files.contains_key(ProjectFile::ManifestBaseline) <==> files.contains_key(
            ProjectFile::ManifestBaseline,
        ));
        assert(before.files.contains_key(ProjectFile::LockBaseline) <==> files.contains_key(
            ProjectFile::LockBaseline,
        ));
    }
}

/// Neither an update nor its verification touches the manifest or a baseline.
pub proof fn law_experiment_keeps_the_baselines(
    files: Files,
    verify: VerifyStep,
    update: UpdateStep,
    happened: Happened,
    file: ProjectFile,
)
    requires
        file != ProjectFile::Lock,
    ensures
        verify.doing().leaves(files, happened) == files,
        update.doing().leaves(files, happened).contains_key(file) <==> files.contains_key(file),
        files.contains_key(file) ==> update.doing().leaves(files, happened)[file] == files[file],
{
}

/// A dependency is moved with the right to run cargo. Its move is good or not as
/// the command went, and has no result where the right or the command could not
/// be had.
pub proof fn law_update_outcome(right: Reply, ran: Reply)
    ensures
        ({
            let command = UpdateStep::TakePermit.after(right);
            let end = command.after(ran);
            &&& UpdateStep::TakePermit.doing() == ProjectAction::Acquire(Permit::CargoUpdate)
            &&& right == Reply::Yes <==> command.doing() == ProjectAction::Update
            &&& right != Reply::Yes <==> command.doing() == ProjectAction::Abort
            &&& right == Reply::Yes && ran == Reply::Yes <==> end.doing() == ProjectAction::Finish(
                true,
            )
            &&& right == Reply::Yes && ran == Reply::No <==> end.doing() == ProjectAction::Finish(
                false,
            )
            &&& right != Reply::Yes || ran == Reply::Error <==> end.doing() == ProjectAction::Abort
        }),
{
}

/// The commands of cargo, word by word. All run with the same toolchain, and an
/// update names the dependency and the version that it goes to.
pub proof fn law_command_lines(dep: Seq<char>, version: Seq<char>)
    ensures
        build_args(BuildTask::Build) == seq!["+1.95.0"@, "build"@],
        build_args(BuildTask::BuildLocked) == build_args(BuildTask::Build).push("--locked"@),
        build_args(BuildTask::Test) == seq!["+1.95.0"@, "test"@, "--no-run"@, "--locked"@],
        build_args(BuildTask::Bench) == seq!["+1.95.0"@, "bench"@, "--no-run"@, "--locked"@],
        update_args(dep, version) == seq!["+1.95.0"@, "update"@, "-p"@, dep, "--precise"@, version],
{
    assert(build_args(BuildTask::BuildLocked) =~= build_args(BuildTask::Build).push("--locked"@));
}

/// The variables of the commands: the given cargo home and target directory, no
/// incremental builds, five jobs, and nothing else. An update gets the cargo home
/// alone.
pub proof fn law_command_variables(home: Seq<char>, target: Seq<char>)
    ensures
        build_env(home, target).len() == 4,
        build_env(home, target).contains(("CARGO_HOME"@, home)),
        build_env(home, target).contains(("CARGO_TARGET_DIR"@, target)),
        build_env(home, target).contains(("CARGO_INCREMENTAL"@, "0"@)),
        build_env(home, target).contains(("CARGO_BUILD_JOBS"@, "5"@)),
        update_env(home) == seq![("CARGO_HOME"@, home)],
{
    let env = build_env(home, target);
    assert(env[0] == ("CARGO_HOME"@, home));
    assert(env[1] == ("CARGO_TARGET_DIR"@, target));
    assert(env[2] == ("CARGO_INCREMENTAL"@, "0"@));
    assert(env[3] == ("CARGO_BUILD_JOBS"@, "5"@));
}

/// A baseline stands beside its file under the same name and a suffix.
pub proof fn law_baseline_names()
    ensures
        ProjectFile::Manifest.name() == "Cargo.toml"@,
        ProjectFile::Lock.name() == "Cargo.lock"@,
        ProjectFile::ManifestBaseline.name() == ProjectFile::Manifest.name() + ".baseline"@,
        ProjectFile::LockBaseline.name() == ProjectFile::Lock.name() + ".baseline"@,
{
    reveal_strlit("Cargo.toml");
    reveal_strlit("Cargo.lock");
    reveal_strlit(".baseline");
    reveal_strlit("Cargo.toml.baseline");
    reveal_strlit("Cargo.lock.baseline");
    assert(ProjectFile::ManifestBaseline.name() =~= ProjectFile::Manifest.name() + ".baseline"@);
    assert(ProjectFile::LockBaseline.name() =~= ProjectFile::Lock.name() + ".baseline"@);
}

/// The labels of the stages and of the rights in the log.
pub proof fn law_labels(stage: Stage, permit: Permit)
    ensures
        stage == Stage::BaselineBuild ==> stage.name() == "baseline_build"@,
        stage == Stage::BaselineTest ==> stage.name() == "baseline_test"@,
        stage == Stage::BaselineBench ==> stage.name() == "baseline_bench"@,
        stage == Stage::DepUpdate ==> stage.name() == "dep_update"@,
        stage == Stage::VerifyBuild ==> stage.name() == "verify_build"@,
        stage == Stage::VerifyTest ==> stage.name() == "verify_test"@,
        stage == Stage::VerifyBench ==> stage.name() == "verify_bench"@,
        permit == Permit::BaselineBuild ==> permit.name() == "baseline_build"@,
        permit == Permit::BaselineBuildInit ==> permit.name() == "baseline_build_init"@,
        permit == Permit::BaselineTest ==> permit.name() == "baseline_test"@,
        permit == Permit::CargoUpdate ==> permit.name() == "cargo_update"@,
        permit == Permit::VerifyBuild ==> permit.name() == "verify_build"@,
        permit == Permit::VerifyDev ==> permit.name() == "verify_dev"@,
{
}

/// A verification takes the right, and logs its commands, under labels that tell
/// a build from the tests and the benches.
pub proof fn law_verification_is_labelled(step: VerifyStep)
    ensures
        step.doing() matches ProjectAction::Acquire(permit) ==> {
            &&& permit == Permit::VerifyBuild <==> step.after(Reply::Yes).doing()
                == ProjectAction::Run(BuildTask::BuildLocked, Stage::VerifyBuild)
            &&& permit == Permit::VerifyDev <==> step.after(Reply::Yes).doing()
                == ProjectAction::Run(BuildTask::Test, Stage::VerifyTest)
            &&& permit == Permit::VerifyBuild || permit == Permit::VerifyDev
        },
        step.doing() matches ProjectAction::Run(task, stage) ==> {
            &&& task == BuildTask::BuildLocked <==> stage == Stage::VerifyBuild
            &&& task == BuildTask::Test <==> stage == Stage::VerifyTest
            &&& task == BuildTask::Bench <==> stage == Stage::VerifyBench
            &&& task != BuildTask::Build
        },
        step matches VerifyStep::Finished(ok) ==> step.doing() == ProjectAction::Finish(ok),
        step == VerifyStep::Failed <==> step.doing() == ProjectAction::Abort,
{
}

/// A list of pairs says what each of them holds, in order.
pub proof fn law_pairs_say_what_they_hold(v: Seq<(String, String)>, i: int)
    requires
        0 <= i < v.len(),
    ensures
        pairs(v).len() == v.len(),
        pairs(v)[i].0 == v[i].0@,
        pairs(v)[i].1 == v[i].1@,
{
}

} // verus!
