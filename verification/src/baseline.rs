//! The check that a crate compiles as it was published, and the baseline that
//! every later experiment starts from.

use vstd::prelude::*;
use crate::deps::IndexDepsByKind;
use crate::project::{
    BuildTask, Files, Happened, Permit, ProjectAction, ProjectFile, Reply, Stage,
};

verus! {

/// Where the check stands.
#[derive(Debug, Clone, Copy, PartialEq, Eq, Structural)]
pub enum BaselineStep {
    FindManifest,
    FindLockBaseline,
    FindLock,
    /// Write down whether the lock file was there.
    RecordLock(bool),
    FindStaleLockBaseline,
    DropLockBaseline,
    /// Is there a lock file to build with?
    FindLockToBuild,
    KeepLock,
    TakeLockedPermit,
    BuildLocked,
    TakeFreshPermit,
    BuildFresh,
    FindFreshLock,
    KeepFreshLock,
    TakeTestPermit,
    Test,
    Bench,
    FindManifestBaseline,
    DropManifestBaseline,
    KeepManifest,
    Finished(bool),
    Failed,
}

/// The check of one crate.
#[derive(Debug, Clone, Copy, PartialEq, Eq, Structural)]
pub struct BaselineCheck {
    pub step: BaselineStep,
    /// Whether the crate has normal or build dependencies.
    pub need_build: bool,
    /// Whether the crate has dev dependencies.
    pub need_dev: bool,
    /// Whether the lock file's baseline was there before.
    pub had_baseline: bool,
}

/// The code under which it is written down whether a crate came with a lock
/// file.
pub open spec fn lock_code(exists: bool) -> i32 {
    if exists {
        1
    } else {
        2
    }
}

impl BaselineCheck {
    pub open spec fn at(self, step: BaselineStep) -> BaselineCheck {
        BaselineCheck { step, ..self }
    }

    /// The check of a crate with these dependencies.
    pub open spec fn first(need_build: bool, need_dev: bool) -> BaselineCheck {
        BaselineCheck {
            step: BaselineStep::FindManifest,
            need_build,
            need_dev,
            had_baseline: false,
        }
    }

    /// Once the lock file is written down: a crate without dependencies is done.
    pub open spec fn recorded(self) -> BaselineCheck {
        if self.need_build || self.need_dev {
            self.at(BaselineStep::FindStaleLockBaseline)
        } else {
            self.at(BaselineStep::Finished(true))
        }
    }

    /// Once the crate is built: tests and benches where it has dev dependencies.
    pub open spec fn built(self) -> BaselineCheck {
        if self.need_dev {
            self.at(BaselineStep::TakeTestPermit)
        } else {
            self.at(BaselineStep::FindManifestBaseline)
        }
    }

    pub open spec fn when(self, reply: Reply, step: BaselineStep, otherwise: BaselineStep) -> BaselineCheck {
        if reply == Reply::Yes {
            self.at(step)
        } else {
            self.at(otherwise)
        }
    }

    pub open spec fn doing(self) -> ProjectAction {
        match self.step {
            BaselineStep::FindManifest => ProjectAction::Exists(ProjectFile::Manifest),
            BaselineStep::FindLockBaseline | BaselineStep::FindStaleLockBaseline =>
                ProjectAction::Exists(ProjectFile::LockBaseline),
            BaselineStep::FindLock | BaselineStep::FindLockToBuild | BaselineStep::FindFreshLock =>
                ProjectAction::Exists(ProjectFile::Lock),
            BaselineStep::RecordLock(exists) => ProjectAction::RecordLock(lock_code(exists)),
            BaselineStep::DropLockBaseline => ProjectAction::Remove(ProjectFile::LockBaseline),
            BaselineStep::KeepLock | BaselineStep::KeepFreshLock => ProjectAction::Copy(
                ProjectFile::Lock,
                ProjectFile::LockBaseline,
            ),
            BaselineStep::TakeLockedPermit => ProjectAction::Acquire(Permit::BaselineBuild),
            BaselineStep::BuildLocked => ProjectAction::Run(
                BuildTask::BuildLocked,
                Stage::BaselineBuild,
            ),
            BaselineStep::TakeFreshPermit => ProjectAction::Acquire(Permit::BaselineBuildInit),
            BaselineStep::BuildFresh => ProjectAction::Run(BuildTask::Build, Stage::BaselineBuild),
            BaselineStep::TakeTestPermit => ProjectAction::Acquire(Permit::BaselineTest),
            BaselineStep::Test => ProjectAction::Run(BuildTask::Test, Stage::BaselineTest),
            BaselineStep::Bench => ProjectAction::Run(BuildTask::Bench, Stage::BaselineBench),
            BaselineStep::FindManifestBaseline => ProjectAction::Exists(
                ProjectFile::ManifestBaseline,
            ),
            BaselineStep::DropManifestBaseline => ProjectAction::Remove(
                ProjectFile::ManifestBaseline,
            ),
            BaselineStep::KeepManifest => ProjectAction::Copy(
                ProjectFile::Manifest,
                ProjectFile::ManifestBaseline,
            ),
            BaselineStep::Finished(ok) => ProjectAction::Finish(ok),
            BaselineStep::Failed => ProjectAction::Abort,
        }
    }

    /// What follows when the step went as `reply` says. A command that fails,
    /// cannot be run or takes too long means that the crate does not compile;
    /// that a stale baseline cannot be removed does not matter.
    pub open spec fn after(self, reply: Reply) -> BaselineCheck {
        let no = BaselineStep::Finished(false);
        let failed = BaselineStep::Failed;
        match self.step {
            BaselineStep::FindManifest => self.when(reply, BaselineStep::FindLockBaseline, no),
            BaselineStep::FindLockBaseline => BaselineCheck {
                step: BaselineStep::FindLock,
                had_baseline: reply == Reply::Yes,
                ..self
            },
            BaselineStep::FindLock => if self.had_baseline {
                self.recorded()
            } else {
                self.at(BaselineStep::RecordLock(reply == Reply::Yes))
            },
            BaselineStep::RecordLock(_) => if reply == Reply::Yes {
                self.recorded()
            } else {
                self.at(failed)
            },
            BaselineStep::FindStaleLockBaseline => self.when(
                reply,
                BaselineStep::DropLockBaseline,
                BaselineStep::FindLockToBuild,
            ),
            BaselineStep::DropLockBaseline => self.at(BaselineStep::FindLockToBuild),
            BaselineStep::FindLockToBuild => self.when(
                reply,
                BaselineStep::KeepLock,
                BaselineStep::TakeFreshPermit,
            ),
            BaselineStep::KeepLock => self.when(reply, BaselineStep::TakeLockedPermit, failed),
            BaselineStep::TakeLockedPermit => self.when(reply, BaselineStep::BuildLocked, failed),
            BaselineStep::BuildLocked => if reply == Reply::Yes {
                self.built()
            } else {
                self.at(no)
            },
            BaselineStep::TakeFreshPermit => self.when(reply, BaselineStep::BuildFresh, failed),
            BaselineStep::BuildFresh => self.when(reply, BaselineStep::FindFreshLock, no),
            BaselineStep::FindFreshLock => self.when(reply, BaselineStep::KeepFreshLock, no),
            BaselineStep::KeepFreshLock => if reply == Reply::Yes {
                self.built()
            } else {
                self.at(failed)
            },
            BaselineStep::TakeTestPermit => self.when(reply, BaselineStep::Test, failed),
            BaselineStep::Test => self.when(reply, BaselineStep::Bench, no),
            BaselineStep::Bench => self.when(reply, BaselineStep::FindManifestBaseline, no),
            BaselineStep::FindManifestBaseline => self.when(
                reply,
                BaselineStep::DropManifestBaseline,
                BaselineStep::KeepManifest,
            ),
            BaselineStep::DropManifestBaseline => self.at(BaselineStep::KeepManifest),
            BaselineStep::KeepManifest => self.when(reply, BaselineStep::Finished(true), failed),
            BaselineStep::Finished(_) | BaselineStep::Failed => self,
        }
    }

    /// Starts the check of a crate with these dependencies.
    pub fn start(deps_by_kind: &IndexDepsByKind) -> (check: BaselineCheck)
        ensures
            check == BaselineCheck::first(
                deps_by_kind.normal@.len() > 0 || deps_by_kind.build@.len() > 0,
                deps_by_kind.dev@.len() > 0,
            ),
    {
        BaselineCheck {
            step: BaselineStep::FindManifest,
            need_build: !deps_by_kind.normal.is_empty() || !deps_by_kind.build.is_empty(),
            need_dev: !deps_by_kind.dev.is_empty(),
            had_baseline: false,
        }
    }

    pub fn action(&self) -> (action: ProjectAction)
        ensures
            action == self.doing(),
    {
        match self.step {
            BaselineStep::FindManifest => ProjectAction::Exists(ProjectFile::Manifest),
            BaselineStep::FindLockBaseline | BaselineStep::FindStaleLockBaseline => {
                ProjectAction::Exists(ProjectFile::LockBaseline)
            },
            BaselineStep::FindLock | BaselineStep::FindLockToBuild | BaselineStep::FindFreshLock => {
                ProjectAction::Exists(ProjectFile::Lock)
            },
            BaselineStep::RecordLock(exists) => {
                let code: i32 = if exists {
                    1
                } else {
                    2
                };
                ProjectAction::RecordLock(code)
            },
            BaselineStep::DropLockBaseline => ProjectAction::Remove(ProjectFile::LockBaseline),
            BaselineStep::KeepLock | BaselineStep::KeepFreshLock => ProjectAction::Copy(
                ProjectFile::Lock,
                ProjectFile::LockBaseline,
            ),
            BaselineStep::TakeLockedPermit => ProjectAction::Acquire(Permit::BaselineBuild),
            BaselineStep::BuildLocked => ProjectAction::Run(
                BuildTask::BuildLocked,
                Stage::BaselineBuild,
            ),
            BaselineStep::TakeFreshPermit => ProjectAction::Acquire(Permit::BaselineBuildInit),
            BaselineStep::BuildFresh => ProjectAction::Run(BuildTask::Build, Stage::BaselineBuild),
            BaselineStep::TakeTestPermit => ProjectAction::Acquire(Permit::BaselineTest),
            BaselineStep::Test => ProjectAction::Run(BuildTask::Test, Stage::BaselineTest),
            BaselineStep::Bench => ProjectAction::Run(BuildTask::Bench, Stage::BaselineBench),
            BaselineStep::FindManifestBaseline => ProjectAction::Exists(
                ProjectFile::ManifestBaseline,
            ),
            BaselineStep::DropManifestBaseline => ProjectAction::Remove(
                ProjectFile::ManifestBaseline,
            ),
            BaselineStep::KeepManifest => ProjectAction::Copy(
                ProjectFile::Manifest,
                ProjectFile::ManifestBaseline,
            ),
            BaselineStep::Finished(ok) => ProjectAction::Finish(ok),
            BaselineStep::Failed => ProjectAction::Abort,
        }
    }

    pub fn next(&self, reply: Reply) -> (check: BaselineCheck)
        ensures
            check == self.after(reply),
    {
        let yes = reply == Reply::Yes;
        let mut check = *self;
        check.step = match self.step {
            BaselineStep::FindManifest => if yes {
                BaselineStep::FindLockBaseline
            } else {
                BaselineStep::Finished(false)
            },
            BaselineStep::FindLockBaseline => {
                check.had_baseline = yes;
                BaselineStep::FindLock
            },
            BaselineStep::FindLock => if self.had_baseline {
                self.step_once_recorded()
            } else {
                BaselineStep::RecordLock(yes)
            },
            BaselineStep::RecordLock(_) => if yes {
                self.step_once_recorded()
            } else {
                BaselineStep::Failed
            },
            BaselineStep::FindStaleLockBaseline => if yes {
                BaselineStep::DropLockBaseline
            } else {
                BaselineStep::FindLockToBuild
            },
            BaselineStep::DropLockBaseline => BaselineStep::FindLockToBuild,
            BaselineStep::FindLockToBuild => if yes {
                BaselineStep::KeepLock
            } else {
                BaselineStep::TakeFreshPermit
            },
            BaselineStep::KeepLock => if yes {
                BaselineStep::TakeLockedPermit
            } else {
                BaselineStep::Failed
            },
            BaselineStep::TakeLockedPermit => if yes {
                BaselineStep::BuildLocked
            } else {
                BaselineStep::Failed
            },
            BaselineStep::BuildLocked => if yes {
                self.step_once_built()
            } else {
                BaselineStep::Finished(false)
            },
            BaselineStep::TakeFreshPermit => if yes {
                BaselineStep::BuildFresh
            } else {
                BaselineStep::Failed
            },
            BaselineStep::BuildFresh => if yes {
                BaselineStep::FindFreshLock
            } else {
                BaselineStep::Finished(false)
            },
            BaselineStep::FindFreshLock => if yes {
                BaselineStep::KeepFreshLock
            } else {
                BaselineStep::Finished(false)
            },
            BaselineStep::KeepFreshLock => if yes {
                self.step_once_built()
            } else {
                BaselineStep::Failed
            },
            BaselineStep::TakeTestPermit => if yes {
                BaselineStep::Test
            } else {
                BaselineStep::Failed
            },
            BaselineStep::Test => if yes {
                BaselineStep::Bench
            } else {
                BaselineStep::Finished(false)
            },
            BaselineStep::Bench => if yes {
                BaselineStep::FindManifestBaseline
            } else {
                BaselineStep::Finished(false)
            },
            BaselineStep::FindManifestBaseline => if yes {
                BaselineStep::DropManifestBaseline
            } else {
                BaselineStep::KeepManifest
            },
            BaselineStep::DropManifestBaseline => BaselineStep::KeepManifest,
            BaselineStep::KeepManifest => if yes {
                BaselineStep::Finished(true)
            } else {
                BaselineStep::Failed
            },
            BaselineStep::Finished(_) | BaselineStep::Failed => self.step,
        };
        check
    }

    fn step_once_recorded(&self) -> (step: BaselineStep)
        ensures
            self.recorded() == self.at(step),
    {
        if self.need_build || self.need_dev {
            BaselineStep::FindStaleLockBaseline
        } else {
            BaselineStep::Finished(true)
        }
    }

    fn step_once_built(&self) -> (step: BaselineStep)
        ensures
            self.built() == self.at(step),
    {
        if self.need_dev {
            BaselineStep::TakeTestPermit
        } else {
            BaselineStep::FindManifestBaseline
        }
    }
}

/// Where a check gets in `steps` steps, when each step goes as `replies` says.
pub open spec fn checked(check: BaselineCheck, replies: spec_fn(BaselineStep) -> Reply, steps: nat) -> BaselineCheck
    decreases steps,
{
    if steps == 0 {
        check
    } else {
        checked(check.after(replies(check.step)), replies, (steps - 1) as nat)
    }
}

/// How a directory and its commands answer the check.
pub open spec fn yes(replies: spec_fn(BaselineStep) -> Reply, step: BaselineStep) -> bool {
    replies(step) == Reply::Yes
}

/// Whether it is written down, where it had to be, if there was a lock file.
pub open spec fn lock_noted(replies: spec_fn(BaselineStep) -> Reply) -> bool {
    yes(replies, BaselineStep::FindLockBaseline) || yes(
        replies,
        BaselineStep::RecordLock(yes(replies, BaselineStep::FindLock)),
    )
}

/// Whether the files and permits that the build needs could be had as far as
/// the build got.
pub open spec fn build_kept(replies: spec_fn(BaselineStep) -> Reply) -> bool {
    if yes(replies, BaselineStep::FindLockToBuild) {
        yes(replies, BaselineStep::KeepLock) && yes(replies, BaselineStep::TakeLockedPermit)
    } else {
        &&& yes(replies, BaselineStep::TakeFreshPermit)
        &&& yes(replies, BaselineStep::BuildFresh) && yes(replies, BaselineStep::FindFreshLock)
            ==> yes(replies, BaselineStep::KeepFreshLock)
    }
}

/// Whether the build itself succeeded: with the lock file that is there, or
/// without one in a build that leaves one behind.
pub open spec fn build_good(replies: spec_fn(BaselineStep) -> Reply) -> bool {
    if yes(replies, BaselineStep::FindLockToBuild) {
        yes(replies, BaselineStep::BuildLocked)
    } else {
        yes(replies, BaselineStep::BuildFresh) && yes(replies, BaselineStep::FindFreshLock)
    }
}

/// Whether tests and benches compile, where the crate has dev dependencies.
pub open spec fn dev_good(need_dev: bool, replies: spec_fn(BaselineStep) -> Reply) -> bool {
    need_dev ==> yes(replies, BaselineStep::Test) && yes(replies, BaselineStep::Bench)
}

proof fn lemma_ended(check: BaselineCheck, replies: spec_fn(BaselineStep) -> Reply, steps: nat)
    requires
        check.step is Finished || check.step is Failed,
    ensures
        checked(check, replies, steps) == check,
    decreases steps,
{
    if steps > 0 {
        lemma_ended(check, replies, (steps - 1) as nat);
    }
}

proof fn lemma_step(check: BaselineCheck, replies: spec_fn(BaselineStep) -> Reply, steps: nat)
    requires
        steps > 0,
    ensures
        checked(check, replies, steps) == checked(
            check.after(replies(check.step)),
            replies,
            (steps - 1) as nat,
        ),
{
}

/// The manifest's part: the last three steps.
proof fn lemma_store(check: BaselineCheck, replies: spec_fn(BaselineStep) -> Reply, steps: nat)
    requires
        check.step == BaselineStep::FindManifestBaseline,
        steps >= 3,
    ensures
        checked(check, replies, steps).step == if yes(replies, BaselineStep::KeepManifest) {
            BaselineStep::Finished(true)
        } else {
            BaselineStep::Failed
        },
{
    let c1 = check.after(replies(check.step));
    let c2 = c1.after(replies(c1.step));
    let c3 = c2.after(replies(c2.step));
    lemma_step(check, replies, steps);
    lemma_step(c1, replies, (steps - 1) as nat);
    if c1.step == BaselineStep::KeepManifest {
        lemma_ended(c2, replies, (steps - 2) as nat);
    } else {
        lemma_step(c2, replies, (steps - 2) as nat);
        lemma_ended(c3, replies, (steps - 3) as nat);
    }
}

/// What is left once the crate is built: six steps at most.
proof fn lemma_dev(check: BaselineCheck, replies: spec_fn(BaselineStep) -> Reply, steps: nat)
    requires
        steps >= 6,
    ensures
        ({
            let end = checked(check.built(), replies, steps).step;
            let permitted = check.need_dev ==> yes(replies, BaselineStep::TakeTestPermit);
            let dev = dev_good(check.need_dev, replies);
            let stored = yes(replies, BaselineStep::KeepManifest);
            end == if !permitted {
                BaselineStep::Failed
            } else if !dev {
                BaselineStep::Finished(false)
            } else if stored {
                BaselineStep::Finished(true)
            } else {
                BaselineStep::Failed
            }
        }),
{
    let c0 = check.built();
    if check.need_dev {
        let c1 = c0.after(replies(c0.step));
        lemma_step(c0, replies, steps);
        if c1.step is Failed {
            lemma_ended(c1, replies, (steps - 1) as nat);
        } else {
            let c2 = c1.after(replies(c1.step));
            lemma_step(c1, replies, (steps - 1) as nat);
            if c2.step is Finished {
                lemma_ended(c2, replies, (steps - 2) as nat);
            } else {
                let c3 = c2.after(replies(c2.step));
                lemma_step(c2, replies, (steps - 2) as nat);
                if c3.step is Finished {
                    lemma_ended(c3, replies, (steps - 3) as nat);
                } else {
                    lemma_store(c3, replies, (steps - 3) as nat);
                }
            }
        }
    } else {
        lemma_store(c0, replies, steps);
    }
}

/// The build and what follows: eleven steps at most.
proof fn lemma_build(check: BaselineCheck, replies: spec_fn(BaselineStep) -> Reply, steps: nat)
    requires
        check.step == BaselineStep::FindLockToBuild,
        steps >= 11,
    ensures
        ({
            let end = checked(check, replies, steps).step;
            let permitted = check.need_dev ==> yes(replies, BaselineStep::TakeTestPermit);
            let dev = dev_good(check.need_dev, replies);
            let stored = yes(replies, BaselineStep::KeepManifest);
            end == if !build_kept(replies) {
                BaselineStep::Failed
            } else if !build_good(replies) {
                BaselineStep::Finished(false)
            } else if !permitted {
                BaselineStep::Failed
            } else if !dev {
                BaselineStep::Finished(false)
            } else if stored {
                BaselineStep::Finished(true)
            } else {
                BaselineStep::Failed
            }
        }),
{
    let c1 = check.after(replies(check.step));
    let c2 = c1.after(replies(c1.step));
    lemma_step(check, replies, steps);
    lemma_step(c1, replies, (steps - 1) as nat);
    if c2.step is Failed {
        lemma_ended(c2, replies, (steps - 2) as nat);
    } else {
        let c3 = c2.after(replies(c2.step));
        lemma_step(c2, replies, (steps - 2) as nat);
        if c3.step is Failed || c3.step is Finished {
            lemma_ended(c3, replies, (steps - 3) as nat);
        } else {
            let c4 = c3.after(replies(c3.step));
            lemma_step(c3, replies, (steps - 3) as nat);
            if c3.step is BuildLocked {
                if c4.step is Finished {
                    lemma_ended(c4, replies, (steps - 4) as nat);
                } else {
                    lemma_dev(c3, replies, (steps - 4) as nat);
                }
            } else {
                if c4.step is Finished {
                    lemma_ended(c4, replies, (steps - 4) as nat);
                } else {
                    let c5 = c4.after(replies(c4.step));
                    lemma_step(c4, replies, (steps - 4) as nat);
                    if c5.step is Failed {
                        lemma_ended(c5, replies, (steps - 5) as nat);
                    } else {
                        lemma_dev(c4, replies, (steps - 5) as nat);
                    }
                }
            }
        }
    }
}

/// The check ends within seventeen steps.
///
/// It passes exactly when the manifest is there, the lock file is noted, and,
/// for a crate with dependencies, the build succeeds with its lock file kept,
/// tests and benches compile where there are dev dependencies, and the manifest
/// is kept. It ends without a result exactly when something that is not itself
/// the crate's compilation could not be done on the way there.
pub proof fn law_baseline_outcome(
    need_build: bool,
    need_dev: bool,
    replies: spec_fn(BaselineStep) -> Reply,
)
    ensures
        ({
            let end = checked(BaselineCheck::first(need_build, need_dev), replies, 17).step;
            let found = yes(replies, BaselineStep::FindManifest);
            let noted = lock_noted(replies);
            let kept = build_kept(replies);
            let good = build_good(replies);
            let permitted = need_dev ==> yes(replies, BaselineStep::TakeTestPermit);
            let dev = dev_good(need_dev, replies);
            let stored = yes(replies, BaselineStep::KeepManifest);
            &&& end is Finished || end is Failed
            &&& !need_build && !need_dev ==> {
                &&& end == BaselineStep::Finished(true) <==> found && noted
                &&& end == BaselineStep::Failed <==> found && !noted
            }
            &&& need_build || need_dev ==> {
                &&& end == BaselineStep::Finished(true) <==> found && noted && kept && good
                    && permitted && dev && stored
                &&& end == BaselineStep::Failed <==> found && (!noted || !kept || (good && (
                !permitted || (dev && !stored))))
            }
        }),
{
    let c0 = BaselineCheck::first(need_build, need_dev);
    let c1 = c0.after(replies(c0.step));
    lemma_step(c0, replies, 17);
    if c1.step is Finished {
        lemma_ended(c1, replies, 16);
    } else {
        let c2 = c1.after(replies(c1.step));
        lemma_step(c1, replies, 16);
        let c3 = c2.after(replies(c2.step));
        lemma_step(c2, replies, 15);
        if c2.had_baseline {
            lemma_noted(c3, replies, 14);
        } else {
            let c4 = c3.after(replies(c3.step));
            lemma_step(c3, replies, 14);
            if c4.step is Failed {
                lemma_ended(c4, replies, 13);
            } else {
                lemma_noted(c4, replies, 13);
            }
        }
    }
}

/// What is left once the lock file is noted: thirteen steps at most.
proof fn lemma_noted(check: BaselineCheck, replies: spec_fn(BaselineStep) -> Reply, steps: nat)
    requires
        check == check.recorded(),
        steps >= 13,
    ensures
        ({
            let end = checked(check, replies, steps).step;
            let permitted = check.need_dev ==> yes(replies, BaselineStep::TakeTestPermit);
            let dev = dev_good(check.need_dev, replies);
            let stored = yes(replies, BaselineStep::KeepManifest);
            end == if !check.need_build && !check.need_dev {
                BaselineStep::Finished(true)
            } else if !build_kept(replies) {
                BaselineStep::Failed
            } else if !build_good(replies) {
                BaselineStep::Finished(false)
            } else if !permitted {
                BaselineStep::Failed
            } else if !dev {
                BaselineStep::Finished(false)
            } else if stored {
                BaselineStep::Finished(true)
            } else {
                BaselineStep::Failed
            }
        }),
{
    if check.step is Finished {
        lemma_ended(check, replies, steps);
    } else {
        let c1 = check.after(replies(check.step));
        lemma_step(check, replies, steps);
        if c1.step is DropLockBaseline {
            let c2 = c1.after(replies(c1.step));
            lemma_step(c1, replies, (steps - 1) as nat);
            lemma_build(c2, replies, (steps - 2) as nat);
        } else {
            lemma_build(c1, replies, (steps - 1) as nat);
        }
    }
}

/// The check runs cargo right after the right to run it was granted, or right
/// after another command.
pub proof fn law_check_holds_the_permit(check: BaselineCheck, reply: Reply)
    ensures
        check.after(reply).doing().runs_cargo() ==> check.doing().runs_cargo() || (
        check.doing() is Acquire && reply == Reply::Yes),
{
}

/// Whether a crate came with a lock file is written down only where no earlier
/// check kept one, as it was found, and before cargo has run.
pub proof fn law_lock_is_noted_first(check: BaselineCheck, reply: Reply)
    ensures
        check.after(reply).doing() is RecordLock && !(check.doing() is RecordLock) ==> {
            &&& check.step == BaselineStep::FindLock
            &&& !check.had_baseline
            &&& check.after(reply).doing() == ProjectAction::RecordLock(
                lock_code(reply == Reply::Yes),
            )
        },
        check.step == BaselineStep::FindLockBaseline ==> check.after(reply).had_baseline == (reply
            == Reply::Yes),
        check.after(reply).step == BaselineStep::FindLock ==> check.step
            == BaselineStep::FindLockBaseline,
        check.after(reply).step == BaselineStep::FindLockBaseline ==> check.step
            == BaselineStep::FindManifest,
        check.after(reply).step == BaselineStep::FindManifest ==> false,
{
}

/// A check, and the files of the source directory.
pub struct Checking {
    pub check: BaselineCheck,
    pub files: Files,
}

/// Where a check gets with these answers.
pub open spec fn checking(start: BaselineCheck, files: Files, answers: Seq<Happened>) -> Checking
    decreases answers.len(),
{
    if answers.len() == 0 {
        Checking { check: start, files }
    } else {
        let before = checking(start, files, answers.drop_last());
        Checking {
            check: before.check.after(answers.last().reply),
            files: before.check.doing().leaves(before.files, answers.last()),
        }
    }
}

/// Whether each answer tells of the files as they are.
pub open spec fn check_answered(
    start: BaselineCheck,
    files: Files,
    answers: Seq<Happened>,
) -> bool
    decreases answers.len(),
{
    answers.len() > 0 ==> {
        let before = checking(start, files, answers.drop_last());
        &&& check_answered(start, files, answers.drop_last())
        &&& before.check.doing().is_true_of(before.files, answers.last())
    }
}

/// Whether `baseline` is there and is what `file` is.
pub open spec fn kept(files: Files, file: ProjectFile, baseline: ProjectFile) -> bool {
    &&& files.contains_key(file)
    &&& files.contains_key(baseline)
    &&& files[baseline] == files[file]
}

/// Whether the lock file is kept once the check is at this step.
spec fn past_lock(step: BaselineStep) -> bool {
    match step {
        BaselineStep::TakeLockedPermit
        | BaselineStep::BuildLocked
        | BaselineStep::TakeTestPermit
        | BaselineStep::Test
        | BaselineStep::Bench
        | BaselineStep::FindManifestBaseline
        | BaselineStep::DropManifestBaseline
        | BaselineStep::KeepManifest
        | BaselineStep::Finished(true) => true,
        _ => false,
    }
}

/// After a check that a crate with dependencies has passed, the baselines are
/// what the manifest and the lock file are, and the manifest is as it was.
pub proof fn law_passed_check_keeps_the_files(
    need_build: bool,
    need_dev: bool,
    files: Files,
    answers: Seq<Happened>,
)
    requires
        need_build || need_dev,
        check_answered(BaselineCheck::first(need_build, need_dev), files, answers),
    ensures
        ({
            let end = checking(BaselineCheck::first(need_build, need_dev), files, answers);
            &&& end.files.contains_key(ProjectFile::Manifest) <==> files.contains_key(
                ProjectFile::Manifest,
            )
            &&& files.contains_key(ProjectFile::Manifest) ==> end.files[ProjectFile::Manifest]
                == files[ProjectFile::Manifest]
            &&& end.check.step == BaselineStep::Finished(true) ==> kept(
                end.files,
                ProjectFile::Manifest,
                ProjectFile::ManifestBaseline,
            ) && kept(end.files, ProjectFile::Lock, ProjectFile::LockBaseline)
        }),
{
    lemma_kept(need_build, need_dev, files, answers);
}

proof fn lemma_kept(
    need_build: bool,
    need_dev: bool,
    files: Files,
    answers: Seq<Happened>,
)
    requires
        need_build || need_dev,
        check_answered(BaselineCheck::first(need_build, need_dev), files, answers),
    ensures
        ({
            let end = checking(BaselineCheck::first(need_build, need_dev), files, answers);
            &&& end.check.need_build == need_build && end.check.need_dev == need_dev
            &&& end.files.contains_key(ProjectFile::Manifest) <==> files.contains_key(
                ProjectFile::Manifest,
            )
            &&& files.contains_key(ProjectFile::Manifest) ==> end.files[ProjectFile::Manifest]
                == files[ProjectFile::Manifest]
            &&& past_lock(end.check.step) ==> kept(
                end.files,
                ProjectFile::Lock,
                ProjectFile::LockBaseline,
            )
            &&& end.check.step == BaselineStep::Finished(true) ==> kept(
                end.files,
                ProjectFile::Manifest,
                ProjectFile::ManifestBaseline,
            )
        }),
    decreases answers.len(),
{
    if answers.len() > 0 {
        lemma_kept(need_build, need_dev, files, answers.drop_last());
    }
}

/// The commands that cargo was given in a check, in order.
pub open spec fn commands(start: BaselineCheck, files: Files, answers: Seq<Happened>) -> Seq<BuildTask>
    decreases answers.len(),
{
    if answers.len() == 0 {
        Seq::empty()
    } else {
        let before = commands(start, files, answers.drop_last());
        match checking(start, files, answers.drop_last()).check.doing() {
            ProjectAction::Run(task, _) => before.push(task),
            _ => before,
        }
    }
}

/// A check that a crate with dependencies has passed has run exactly these
/// commands: the build, with the lock file as it is where the crate came with
/// one, and then, where there are dependencies of tests and benches, those of
/// the tests and of the benches.
pub proof fn law_passed_check_ran_its_commands(
    need_build: bool,
    need_dev: bool,
    files: Files,
    answers: Seq<Happened>,
)
    requires
        need_build || need_dev,
        check_answered(BaselineCheck::first(need_build, need_dev), files, answers),
        checking(BaselineCheck::first(need_build, need_dev), files, answers).check.step
            == BaselineStep::Finished(true),
    ensures
        ({
            let ran = commands(BaselineCheck::first(need_build, need_dev), files, answers);
            let built = if files.contains_key(ProjectFile::Lock) {
                BuildTask::BuildLocked
            } else {
                BuildTask::Build
            };
            &&& !need_dev ==> ran == seq![built]
            &&& need_dev ==> ran == seq![built, BuildTask::Test, BuildTask::Bench]
        }),
{
    lemma_commands(need_build, need_dev, files, answers);
}

proof fn lemma_commands(need_build: bool, need_dev: bool, files: Files, answers: Seq<Happened>)
    requires
        need_build || need_dev,
        check_answered(BaselineCheck::first(need_build, need_dev), files, answers),
    ensures
        ({
            let end = checking(BaselineCheck::first(need_build, need_dev), files, answers);
            let ran = commands(BaselineCheck::first(need_build, need_dev), files, answers);
            let lock = files.contains_key(ProjectFile::Lock);
            let built = if lock {
                BuildTask::BuildLocked
            } else {
                BuildTask::Build
            };
            &&& end.check.need_build == need_build && end.check.need_dev == need_dev
            &&& match end.check.step {
                BaselineStep::FindManifest
                | BaselineStep::FindLockBaseline
                | BaselineStep::FindLock
                | BaselineStep::RecordLock(_)
                | BaselineStep::FindStaleLockBaseline
                | BaselineStep::DropLockBaseline
                | BaselineStep::FindLockToBuild => ran.len() == 0 && end.files.contains_key(
                    ProjectFile::Lock,
                ) == lock,
                BaselineStep::KeepLock
                | BaselineStep::TakeLockedPermit
                | BaselineStep::BuildLocked => ran.len() == 0 && lock,
                BaselineStep::TakeFreshPermit | BaselineStep::BuildFresh => ran.len() == 0 && !lock,
                BaselineStep::FindFreshLock | BaselineStep::KeepFreshLock => ran == seq![built]
                    && !lock,
                BaselineStep::TakeTestPermit | BaselineStep::Test => ran == seq![built] && need_dev,
                BaselineStep::Bench => ran == seq![built, BuildTask::Test] && need_dev,
                BaselineStep::FindManifestBaseline
                | BaselineStep::DropManifestBaseline
                | BaselineStep::KeepManifest
                | BaselineStep::Finished(true) => ran == if need_dev {
                    seq![built, BuildTask::Test, BuildTask::Bench]
                } else {
                    seq![built]
                },
                _ => true,
            }
        }),
    decreases answers.len(),
{
    let start = BaselineCheck::first(need_build, need_dev);
    if answers.len() > 0 {
        let earlier = answers.drop_last();
        lemma_commands(need_build, need_dev, files, earlier);
        let ran = commands(start, files, answers);
        let before = commands(start, files, earlier);
        if checking(start, files, earlier).check.doing() is Run {
            if before.len() == 0 {
                assert(before =~= Seq::<BuildTask>::empty());
                assert(ran =~= seq![ran[0]]);
            } else if before.len() == 1 {
                assert(ran =~= seq![before[0], ran[1]]);
            } else if before.len() == 2 {
                assert(ran =~= seq![before[0], before[1], ran[2]]);
            }
        }
    }
}

/// What each step of a check does, whatever the crate depends on: it looks for
/// the file that the next step needs, drops what is stale, keeps a file under its
/// baseline, or runs cargo after the right to do so was taken.
pub proof fn law_steps_do_what_they_are_for(check: BaselineCheck)
    ensures
        check.step == BaselineStep::FindManifest ==> check.doing() == ProjectAction::Exists(
            ProjectFile::Manifest,
        ),
        check.step == BaselineStep::FindLockBaseline || check.step
            == BaselineStep::FindStaleLockBaseline ==> check.doing() == ProjectAction::Exists(
            ProjectFile::LockBaseline,
        ),
        check.step == BaselineStep::FindLock || check.step == BaselineStep::FindLockToBuild
            || check.step == BaselineStep::FindFreshLock ==> check.doing() == ProjectAction::Exists(
            ProjectFile::Lock,
        ),
        check.step == BaselineStep::RecordLock(true) ==> check.doing() == ProjectAction::RecordLock(
            1,
        ),
        check.step == BaselineStep::RecordLock(false) ==> check.doing() == ProjectAction::RecordLock(
            2,
        ),
        check.step == BaselineStep::DropLockBaseline ==> check.doing() == ProjectAction::Remove(
            ProjectFile::LockBaseline,
        ),
        check.step == BaselineStep::KeepLock || check.step == BaselineStep::KeepFreshLock
            ==> check.doing() == ProjectAction::Copy(ProjectFile::Lock, ProjectFile::LockBaseline),
        check.step == BaselineStep::TakeLockedPermit ==> check.doing() == ProjectAction::Acquire(
            Permit::BaselineBuild,
        ),
        check.step == BaselineStep::TakeFreshPermit ==> check.doing() == ProjectAction::Acquire(
            Permit::BaselineBuildInit,
        ),
        check.step == BaselineStep::TakeTestPermit ==> check.doing() == ProjectAction::Acquire(
            Permit::BaselineTest,
        ),
        check.step == BaselineStep::BuildLocked ==> check.doing() == ProjectAction::Run(
            BuildTask::BuildLocked,
            Stage::BaselineBuild,
        ),
        check.step == BaselineStep::BuildFresh ==> check.doing() == ProjectAction::Run(
            BuildTask::Build,
            Stage::BaselineBuild,
        ),
        check.step == BaselineStep::Test ==> check.doing() == ProjectAction::Run(
            BuildTask::Test,
            Stage::BaselineTest,
        ),
        check.step == BaselineStep::Bench ==> check.doing() == ProjectAction::Run(
            BuildTask::Bench,
            Stage::BaselineBench,
        ),
        check.step == BaselineStep::FindManifestBaseline ==> check.doing() == ProjectAction::Exists(
            ProjectFile::ManifestBaseline,
        ),
        check.step == BaselineStep::DropManifestBaseline ==> check.doing() == ProjectAction::Remove(
            ProjectFile::ManifestBaseline,
        ),
        check.step == BaselineStep::KeepManifest ==> check.doing() == ProjectAction::Copy(
            ProjectFile::Manifest,
            ProjectFile::ManifestBaseline,
        ),
        check.step matches BaselineStep::Finished(ok) ==> check.doing() == ProjectAction::Finish(ok),
        check.step == BaselineStep::Failed ==> check.doing() == ProjectAction::Abort,
{
}

} // verus!
