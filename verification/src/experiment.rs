//! The update experiments of one crate: each dependency alone is moved to the
//! newest version that its requirement admits, starting from the baseline, and
//! the crate is compiled again.

use vstd::prelude::*;
use vstd::string::*;
use crate::deps::{self, DepType, DependencyInfo, DependencyView, IndexDepsByKind};
use crate::failures::{self, FailureView, Failures};
use crate::project::{self, ProjectAction, Reply};
use crate::text;
use crate::versions::{self, VersionReq};

verus! {

/// What is being done for the dependency at hand.
#[derive(Debug, Clone, Copy, PartialEq, Eq, Structural)]
pub enum ExperimentStep {
    /// Ask the database for the versions of the dependency.
    AskDatabase,
    /// Ask the registry, as the database knows none.
    AskRegistry,
    /// Put the baseline back.
    Restore,
    /// Move the dependency to the chosen version.
    Update,
    /// Compile the crate.
    Verify,
    /// All dependencies were tried.
    Finished,
    /// A step could not be carried out.
    Failed,
}

/// What comes back from a step.
#[derive(Debug)]
pub enum ExperimentEvent {
    /// The versions that were asked for; none where the database has no list.
    Versions(Option<Vec<String>>),
    /// The versions could not be had.
    QueryFailed,
    /// How a step in the source directory went.
    Went(Reply),
}

/// What an [`ExperimentEvent`] says.
pub enum EventView {
    Versions(Option<Seq<Seq<char>>>),
    QueryFailed,
    Went(Reply),
}

impl View for ExperimentEvent {
    type V = EventView;

    open spec fn view(&self) -> EventView {
        match self {
            ExperimentEvent::Versions(Some(list)) => EventView::Versions(Some(text::texts(list@))),
            ExperimentEvent::Versions(None) => EventView::Versions(None),
            ExperimentEvent::QueryFailed => EventView::QueryFailed,
            ExperimentEvent::Went(reply) => EventView::Went(*reply),
        }
    }
}

/// What to do next.
#[derive(Debug)]
pub enum ExperimentAction {
    AskDatabase(String),
    AskRegistry(String),
    Restore,
    /// Move the dependency of that name to that version.
    Update(String, String),
    Verify(DepType),
    Finish,
    Abort,
}

/// What an [`ExperimentAction`] says.
pub enum ActionView {
    AskDatabase(Seq<char>),
    AskRegistry(Seq<char>),
    Restore,
    Update(Seq<char>, Seq<char>),
    Verify(DepType),
    Finish,
    Abort,
}

impl View for ExperimentAction {
    type V = ActionView;

    open spec fn view(&self) -> ActionView {
        match self {
            ExperimentAction::AskDatabase(name) => ActionView::AskDatabase(name@),
            ExperimentAction::AskRegistry(name) => ActionView::AskRegistry(name@),
            ExperimentAction::Restore => ActionView::Restore,
            ExperimentAction::Update(name, version) => ActionView::Update(name@, version@),
            ExperimentAction::Verify(dep_type) => ActionView::Verify(*dep_type),
            ExperimentAction::Finish => ActionView::Finish,
            ExperimentAction::Abort => ActionView::Abort,
        }
    }
}

/// The experiments of one crate: the dependencies, the one at hand, the version
/// chosen for it, and the failures so far.
pub struct RunView {
    pub deps: Seq<DependencyView>,
    pub at: int,
    pub step: ExperimentStep,
    pub version: Seq<char>,
    pub failures: Map<Seq<char>, FailureView>,
}

/// The first dependency from `at` on whose requirement can be read.
pub open spec fn next_readable(deps: Seq<DependencyView>, at: int) -> int
    decreases deps.len() - at,
{
    if at >= deps.len() {
        deps.len() as int
    } else if versions::version_req_valid(deps[at].req) {
        at
    } else {
        next_readable(deps, at + 1)
    }
}

impl RunView {
    /// Goes on with the first dependency from `at` on whose requirement can be
    /// read.
    pub open spec fn open(self, at: int) -> RunView {
        let i = next_readable(self.deps, at);
        RunView {
            at: i,
            step: if i < self.deps.len() {
                ExperimentStep::AskDatabase
            } else {
                ExperimentStep::Finished
            },
            version: Seq::empty(),
            ..self
        }
    }

    /// The experiments of a crate with these dependencies, before the first.
    pub open spec fn first(deps: Seq<DependencyView>) -> RunView {
        RunView {
            deps,
            at: 0,
            step: ExperimentStep::Finished,
            version: Seq::empty(),
            failures: Map::empty(),
        }.open(0)
    }

    pub open spec fn move_on(self) -> RunView {
        self.open(self.at + 1)
    }

    pub open spec fn at_step(self, step: ExperimentStep) -> RunView {
        RunView { step, ..self }
    }

    /// The newest admitted version is tried; without one the dependency is left.
    pub open spec fn choose_from(self, list: Seq<Seq<char>>) -> RunView {
        match versions::newest(list, self.deps[self.at].req) {
            Some(version) => RunView { version, step: ExperimentStep::Restore, ..self },
            None => self.move_on(),
        }
    }

    /// The failure of the move at hand, recorded.
    pub open spec fn broken(self) -> RunView {
        RunView {
            failures: failures::failed(self.failures, self.deps[self.at], self.version),
            ..self
        }
    }

    pub open spec fn doing(self) -> ActionView {
        match self.step {
            ExperimentStep::AskDatabase => ActionView::AskDatabase(self.deps[self.at].name),
            ExperimentStep::AskRegistry => ActionView::AskRegistry(self.deps[self.at].name),
            ExperimentStep::Restore => ActionView::Restore,
            ExperimentStep::Update => ActionView::Update(self.deps[self.at].name, self.version),
            ExperimentStep::Verify => ActionView::Verify(self.deps[self.at].dep_type),
            ExperimentStep::Finished => ActionView::Finish,
            ExperimentStep::Failed => ActionView::Abort,
        }
    }

    /// What follows an event. An event that does not answer the step changes
    /// nothing.
    pub open spec fn after(self, event: EventView) -> RunView {
        match (self.step, event) {
            (ExperimentStep::AskDatabase, EventView::Versions(Some(list))) => self.choose_from(list),
            (ExperimentStep::AskDatabase, EventView::Versions(None)) => self.at_step(
                ExperimentStep::AskRegistry,
            ),
            (ExperimentStep::AskRegistry, EventView::Versions(Some(list))) => self.choose_from(list),
            (ExperimentStep::AskRegistry, EventView::Versions(None)) => self.move_on(),
            (ExperimentStep::AskDatabase, EventView::QueryFailed) => self.move_on(),
            (ExperimentStep::AskRegistry, EventView::QueryFailed) => self.move_on(),
            (ExperimentStep::Restore, EventView::Went(reply)) => if reply == Reply::Yes {
                self.at_step(ExperimentStep::Update)
            } else {
                self.at_step(ExperimentStep::Failed)
            },
            (ExperimentStep::Update, EventView::Went(reply)) => match reply {
                Reply::Yes => self.at_step(ExperimentStep::Verify),
                Reply::No => self.move_on(),
                Reply::Error => self.at_step(ExperimentStep::Failed),
            },
            (ExperimentStep::Verify, EventView::Went(reply)) => match reply {
                Reply::Yes => self.move_on(),
                Reply::No => self.broken().move_on(),
                Reply::Error => self.at_step(ExperimentStep::Failed),
            },
            _ => self,
        }
    }

    /// Between two steps of a run: the dependency at hand is one whose
    /// requirement can be read.
    pub open spec fn sound(self) -> bool {
        self.step != ExperimentStep::Finished && self.step != ExperimentStep::Failed ==> 0 <= self.at
            < self.deps.len() && versions::version_req_valid(self.deps[self.at].req)
    }
}

/// The experiments of one crate.
pub struct ExperimentRun {
    deps: Vec<DependencyInfo>,
    at: usize,
    step: ExperimentStep,
    version: String,
    failures: Failures,
}

impl View for ExperimentRun {
    type V = RunView;

    closed spec fn view(&self) -> RunView {
        RunView {
            deps: deps::dep_views(self.deps@),
            at: self.at as int,
            step: self.step,
            version: self.version@,
            failures: self.failures@,
        }
    }
}

impl ExperimentRun {
    #[verifier::type_invariant]
    spec fn is_sound(&self) -> bool {
        self@.sound() && self.at <= self.deps@.len()
    }

    fn open(deps: Vec<DependencyInfo>, from: usize, failures: Failures) -> (run: ExperimentRun)
        requires
            from <= deps@.len(),
        ensures
            forall|v: RunView|
                v.deps == deps::dep_views(deps@) && v.failures == failures@ ==> run@
                    == #[trigger] v.open(from as int),
    {
        let ghost all = deps::dep_views(deps@);
        let mut at: usize = from;
        while at < deps.len() && VersionReq::parse(deps[at].req.as_str()).is_none()
            invariant
                from <= at <= deps@.len(),
                all == deps::dep_views(deps@),
                next_readable(all, from as int) == next_readable(all, at as int),
            ensures
                from <= at <= deps@.len(),
                next_readable(all, from as int) == next_readable(all, at as int),
                at < deps@.len() ==> versions::version_req_valid(all[at as int].req),
            decreases deps@.len() - at,
        {
            at += 1;
        }
        let step = if at < deps.len() {
            ExperimentStep::AskDatabase
        } else {
            ExperimentStep::Finished
        };
        ExperimentRun { deps, at, step, version: String::new(), failures }
    }

    /// Starts the experiments of a crate with these dependencies.
    pub fn start(deps_by_kind: &IndexDepsByKind) -> (run: ExperimentRun)
        ensures
            run@ == RunView::first(deps_by_kind.flat()),
    {
        let run = ExperimentRun::open(deps::flatten_index_deps(deps_by_kind), 0, Failures::new());
        assert(run@ == RunView {
            deps: deps_by_kind.flat(),
            at: 0,
            step: ExperimentStep::Finished,
            version: Seq::empty(),
            failures: Map::empty(),
        }.open(0));
        run
    }

    /// What to do next.
    pub fn action(&self) -> (action: ExperimentAction)
        ensures
            action@ == self@.doing(),
    {
        proof {
            use_type_invariant(self);
        }
        match self.step {
            ExperimentStep::AskDatabase => ExperimentAction::AskDatabase(
                self.deps[self.at].name.clone(),
            ),
            ExperimentStep::AskRegistry => ExperimentAction::AskRegistry(
                self.deps[self.at].name.clone(),
            ),
            ExperimentStep::Restore => ExperimentAction::Restore,
            ExperimentStep::Update => ExperimentAction::Update(
                self.deps[self.at].name.clone(),
                self.version.clone(),
            ),
            ExperimentStep::Verify => ExperimentAction::Verify(self.deps[self.at].dep_type),
            ExperimentStep::Finished => ExperimentAction::Finish,
            ExperimentStep::Failed => ExperimentAction::Abort,
        }
    }

    fn at_step(self, step: ExperimentStep) -> (run: ExperimentRun)
        requires
            self@.at_step(step).sound(),
        ensures
            run@ == self@.at_step(step),
    {
        proof {
            use_type_invariant(&self);
        }
        let ExperimentRun { deps, at, step: _, version, failures } = self;
        ExperimentRun { deps, at, step, version, failures }
    }

    fn move_on(self) -> (run: ExperimentRun)
        requires
            self@.at < self@.deps.len(),
        ensures
            run@ == self@.move_on(),
    {
        let ghost before = self@;
        let ExperimentRun { deps, at, step: _, version: _, failures } = self;
        assert(at < deps.len());
        let run = ExperimentRun::open(deps, at + 1, failures);
        assert(run@ == before.open(at + 1));
        run
    }

    fn choose_from(self, list: Vec<String>) -> (run: ExperimentRun)
        requires
            0 <= self@.at < self@.deps.len(),
            versions::version_req_valid(self@.deps[self@.at].req),
        ensures
            run@ == self@.choose_from(text::texts(list@)),
    {
        let chosen = match VersionReq::parse(self.deps[self.at].req.as_str()) {
            Some(req) => versions::filter_versions_by_req(list, &req),
            None => None,
        };
        match chosen {
            Some(version) => {
                let ExperimentRun { deps, at, step: _, version: _, failures } = self;
                ExperimentRun { deps, at, step: ExperimentStep::Restore, version, failures }
            },
            None => self.move_on(),
        }
    }

    fn broken(self) -> (run: ExperimentRun)
        requires
            0 <= self@.at < self@.deps.len(),
        ensures
            run@ == self@.broken(),
    {
        proof {
            use_type_invariant(&self);
        }
        let ExperimentRun { deps, at, step, version, mut failures } = self;
        failures.record(&deps[at], version.as_str());
        ExperimentRun { deps, at, step, version, failures }
    }

    /// Takes what came back from a step.
    pub fn next(self, event: ExperimentEvent) -> (run: ExperimentRun)
        ensures
            run@ == self@.after(event@),
    {
        proof {
            use_type_invariant(&self);
        }
        match (self.step, event) {
            (ExperimentStep::AskDatabase, ExperimentEvent::Versions(Some(list))) => {
                self.choose_from(list)
            },
            (ExperimentStep::AskDatabase, ExperimentEvent::Versions(None)) => self.at_step(
                ExperimentStep::AskRegistry,
            ),
            (ExperimentStep::AskRegistry, ExperimentEvent::Versions(Some(list))) => {
                self.choose_from(list)
            },
            (ExperimentStep::AskRegistry, ExperimentEvent::Versions(None)) => self.move_on(),
            (ExperimentStep::AskDatabase, ExperimentEvent::QueryFailed) => self.move_on(),
            (ExperimentStep::AskRegistry, ExperimentEvent::QueryFailed) => self.move_on(),
            (ExperimentStep::Restore, ExperimentEvent::Went(reply)) => match reply {
                Reply::Yes => self.at_step(ExperimentStep::Update),
                _ => self.at_step(ExperimentStep::Failed),
            },
            (ExperimentStep::Update, ExperimentEvent::Went(reply)) => match reply {
                Reply::Yes => self.at_step(ExperimentStep::Verify),
                Reply::No => self.move_on(),
                Reply::Error => self.at_step(ExperimentStep::Failed),
            },
            (ExperimentStep::Verify, ExperimentEvent::Went(reply)) => match reply {
                Reply::Yes => self.move_on(),
                Reply::No => self.broken().move_on(),
                Reply::Error => self.at_step(ExperimentStep::Failed),
            },
            _ => self,
        }
    }

    /// The object that is stored for the crate; none where no update broke it.
    pub fn into_errors(self) -> (r: Option<serde_json::Value>)
        ensures
            r is None == (self@.failures == Map::<Seq<char>, FailureView>::empty()),
            r is Some ==> failures::stored_as(crate::json::value_view(r->0), self@.failures),
    {
        let ExperimentRun { deps: _, at: _, step: _, version: _, failures } = self;
        failures.into_value()
    }
}

/// The message under which an update that could not be run is reported.
pub fn update_error(dep: &str, version: &str) -> (message: String)
    ensures
        message@ == "cargo update -p "@ + dep@ + " --precise "@ + version@ + " failed to execute"@,
{
    "cargo update -p ".to_owned().concat(dep).concat(" --precise ").concat(version).concat(
        " failed to execute",
    )
}

/// A dependency is moved only right after the baseline was put back.
pub proof fn law_update_starts_from_baseline(run: RunView, event: EventView)
    ensures
        run.after(event).step == ExperimentStep::Update && run.step != ExperimentStep::Update ==> run.step
            == ExperimentStep::Restore && event == EventView::Went(Reply::Yes),
{
}

/// A failure is recorded only when the crate was compiled after a move that
/// succeeded, and did not compile: compilation follows a successful move, and
/// the records change only when it fails.
pub proof fn law_only_verified_failures_are_recorded(run: RunView, event: EventView)
    ensures
        run.after(event).failures != run.failures ==> run.step == ExperimentStep::Verify && event
            == EventView::Went(Reply::No) && run.after(event).failures == failures::failed(
            run.failures,
            run.deps[run.at],
            run.version,
        ),
        run.after(event).step == ExperimentStep::Verify && run.step != ExperimentStep::Verify
            ==> run.step == ExperimentStep::Update && event == EventView::Went(Reply::Yes),
        run.after(event).step == ExperimentStep::Verify ==> run.after(event).version == run.version
            && run.after(event).at == run.at,
{
}

/// Everything that the outside answers in a run: for each dependency the replies
/// of the database and of the registry, and how its three steps went.
pub struct Answers {
    pub database: spec_fn(int) -> Result<Option<Seq<Seq<char>>>, ()>,
    pub registry: spec_fn(int) -> Result<Option<Seq<Seq<char>>>, ()>,
    pub restore: spec_fn(int) -> Reply,
    pub update: spec_fn(int) -> Reply,
    pub verify: spec_fn(int) -> Reply,
}

impl Answers {
    /// The event of a question for versions.
    pub open spec fn heard(reply: Result<Option<Seq<Seq<char>>>, ()>) -> EventView {
        match reply {
            Ok(list) => EventView::Versions(list),
            Err(_) => EventView::QueryFailed,
        }
    }

    /// What comes back from the step at hand.
    pub open spec fn to(self, run: RunView) -> EventView {
        match run.step {
            ExperimentStep::AskDatabase => Answers::heard((self.database)(run.at)),
            ExperimentStep::AskRegistry => Answers::heard((self.registry)(run.at)),
            ExperimentStep::Restore => EventView::Went((self.restore)(run.at)),
            ExperimentStep::Update => EventView::Went((self.update)(run.at)),
            ExperimentStep::Verify => EventView::Went((self.verify)(run.at)),
            ExperimentStep::Finished | ExperimentStep::Failed => EventView::QueryFailed,
        }
    }

    /// The versions that are known of dependency `i`: those of the database,
    /// else those of the registry.
    pub open spec fn known(self, i: int) -> Option<Seq<Seq<char>>> {
        match (self.database)(i) {
            Ok(Some(list)) => Some(list),
            Ok(None) => match (self.registry)(i) {
                Ok(list) => list,
                Err(_) => None,
            },
            Err(_) => None,
        }
    }

    /// The version to which dependency `i` is to be moved.
    pub open spec fn target(self, deps: Seq<DependencyView>, i: int) -> Option<Seq<char>> {
        if !versions::version_req_valid(deps[i].req) {
            None
        } else {
            match self.known(i) {
                Some(list) => versions::newest(list, deps[i].req),
                None => None,
            }
        }
    }

    /// Whether the experiment with dependency `i` cannot be carried out.
    pub open spec fn stops(self, deps: Seq<DependencyView>, i: int) -> bool {
        self.target(deps, i) is Some && ((self.restore)(i) != Reply::Yes || (self.update)(i)
            == Reply::Error || ((self.update)(i) == Reply::Yes && (self.verify)(i) == Reply::Error))
    }

    /// Whether dependency `i` was moved and the crate then did not compile.
    pub open spec fn breaks(self, deps: Seq<DependencyView>, i: int) -> bool {
        self.target(deps, i) is Some && (self.restore)(i) == Reply::Yes && (self.update)(i)
            == Reply::Yes && (self.verify)(i) == Reply::No
    }

    /// The failures among the first `n` dependencies.
    pub open spec fn failures(self, deps: Seq<DependencyView>, n: int) -> Map<Seq<char>, FailureView>
        decreases n,
    {
        if n <= 0 {
            Map::empty()
        } else if self.breaks(deps, n - 1) {
            failures::failed(
                self.failures(deps, n - 1),
                deps[n - 1],
                self.target(deps, n - 1)->0,
            )
        } else {
            self.failures(deps, n - 1)
        }
    }
}

/// Where a run gets in `steps` steps with these answers.
pub open spec fn driven(run: RunView, answers: Answers, steps: nat) -> RunView
    decreases steps,
{
    if steps == 0 {
        run
    } else {
        driven(run.after(answers.to(run)), answers, (steps - 1) as nat)
    }
}

proof fn lemma_step(run: RunView, answers: Answers, steps: nat)
    requires
        steps > 0,
    ensures
        driven(run, answers, steps) == driven(
            run.after(answers.to(run)),
            answers,
            (steps - 1) as nat,
        ),
{
}

proof fn lemma_ended(run: RunView, answers: Answers, steps: nat)
    requires
        run.step == ExperimentStep::Finished || run.step == ExperimentStep::Failed,
    ensures
        driven(run, answers, steps) == run,
    decreases steps,
{
    if steps > 0 {
        lemma_ended(run, answers, (steps - 1) as nat);
    }
}

/// The dependencies that are passed over leave nothing behind.
proof fn lemma_passed_over(deps: Seq<DependencyView>, answers: Answers, at: int)
    requires
        0 <= at <= deps.len(),
    ensures
        at <= next_readable(deps, at) <= deps.len(),
        next_readable(deps, at) < deps.len() ==> versions::version_req_valid(
            deps[next_readable(deps, at)].req,
        ),
        answers.failures(deps, next_readable(deps, at)) == answers.failures(deps, at),
        forall|i: int| at <= i < next_readable(deps, at) ==> !(#[trigger] answers.stops(deps, i)),
    decreases deps.len() - at,
{
    if at < deps.len() && !versions::version_req_valid(deps[at].req) {
        lemma_passed_over(deps, answers, at + 1);
        assert(!answers.stops(deps, at));
        assert(answers.failures(deps, at + 1) == answers.failures(deps, at));
    }
}

proof fn lemma_from(run: RunView, answers: Answers, from: int, steps: nat)
    requires
        0 <= from <= run.deps.len(),
        run == run.open(from),
        run.failures == answers.failures(run.deps, from),
        steps >= 5 * (run.deps.len() - from),
    ensures
        ({
            let end = driven(run, answers, steps);
            let deps = run.deps;
            &&& end.deps == deps
            &&& (exists|i: int| from <= i < deps.len() && #[trigger] answers.stops(deps, i))
                ==> end.step == ExperimentStep::Failed
            &&& (forall|i: int| from <= i < deps.len() ==> !#[trigger] answers.stops(deps, i))
                ==> end.step == ExperimentStep::Finished && end.failures == answers.failures(
                deps,
                deps.len() as int,
            )
        }),
    decreases run.deps.len() - from,
{
    let deps = run.deps;
    lemma_passed_over(deps, answers, from);
    let i = run.at;
    if i >= deps.len() {
        lemma_ended(run, answers, steps);
    } else {
        assert(answers.failures(deps, i) == run.failures);
        let stops = answers.stops(deps, i);
        let r1 = run.after(answers.to(run));
        lemma_step(run, answers, steps);
        // After the versions are known: three steps at most.
        let (r, s) = if r1.step == ExperimentStep::AskRegistry && r1.at == i {
            lemma_step(r1, answers, (steps - 1) as nat);
            (r1.after(answers.to(r1)), (steps - 2) as nat)
        } else {
            (r1, (steps - 1) as nat)
        };
        assert(driven(run, answers, steps) == driven(r, answers, s));
        if answers.target(deps, i) is Some {
            assert(r.step == ExperimentStep::Restore && r.at == i && r.version == answers.target(
                deps,
                i,
            )->0);
            let r2 = r.after(answers.to(r));
            lemma_step(r, answers, s);
            if r2.step == ExperimentStep::Failed {
                lemma_ended(r2, answers, (s - 1) as nat);
                assert(stops);
            } else {
                let r3 = r2.after(answers.to(r2));
                lemma_step(r2, answers, (s - 1) as nat);
                if r3.step == ExperimentStep::Failed {
                    lemma_ended(r3, answers, (s - 2) as nat);
                    assert(stops);
                } else if (answers.update)(i) == Reply::No {
                    assert(!stops && !answers.breaks(deps, i));
                    lemma_from(r3, answers, i + 1, (s - 2) as nat);
                    lemma_split(deps, answers, from, i);
                } else {
                    let r4 = r3.after(answers.to(r3));
                    lemma_step(r3, answers, (s - 2) as nat);
                    if r4.step == ExperimentStep::Failed {
                        lemma_ended(r4, answers, (s - 3) as nat);
                        assert(stops);
                    } else {
                        assert(!stops);
                        lemma_from(r4, answers, i + 1, (s - 3) as nat);
                        lemma_split(deps, answers, from, i);
                    }
                }
            }
        } else {
            assert(!stops && !answers.breaks(deps, i));
            assert(r == run.open(i + 1));
            lemma_from(r, answers, i + 1, s);
            lemma_split(deps, answers, from, i);
        }
    }
}

/// Whether one stops from `from` on is settled from `i + 1` on, where none does
/// before.
proof fn lemma_split(deps: Seq<DependencyView>, answers: Answers, from: int, i: int)
    requires
        0 <= from <= i < deps.len(),
        !answers.stops(deps, i),
        forall|k: int| from <= k < i ==> !#[trigger] answers.stops(deps, k),
    ensures
        (exists|k: int| from <= k < deps.len() && #[trigger] answers.stops(deps, k)) <==> (exists|
            k: int,
        | i + 1 <= k < deps.len() && #[trigger] answers.stops(deps, k)),
{
}

/// The experiments end within five steps for each dependency. Where each of
/// them can be carried out, what is recorded in the end is exactly, in the
/// order of the dependencies, each move that succeeded and after which the
/// crate did not compile: every dependency counts alone, and one without a
/// readable requirement, known versions or an admitted version is passed over.
/// Where one cannot be carried out, the run fails.
pub proof fn law_experiments_outcome(deps: Seq<DependencyView>, answers: Answers)
    ensures
        ({
            let end = driven(RunView::first(deps), answers, 5 * deps.len());
            &&& (exists|i: int| 0 <= i < deps.len() && #[trigger] answers.stops(deps, i)) <==> end.step
                == ExperimentStep::Failed
            &&& (forall|i: int| 0 <= i < deps.len() ==> !#[trigger] answers.stops(deps, i)) <==> end.step
                == ExperimentStep::Finished
            &&& end.step == ExperimentStep::Finished ==> end.failures == answers.failures(
                deps,
                deps.len() as int,
            )
        }),
{
    lemma_from(RunView::first(deps), answers, 0, 5 * deps.len());
}

/// Each step asks for what concerns the dependency at hand: the versions of its
/// name, its move to the chosen version, and the verification that its kind in
/// the index calls for.
pub proof fn law_action_is_about_the_dependency_at_hand(run: RunView)
    ensures
        run.step == ExperimentStep::AskDatabase ==> run.doing() == ActionView::AskDatabase(
            run.deps[run.at].name,
        ),
        run.step == ExperimentStep::AskRegistry ==> run.doing() == ActionView::AskRegistry(
            run.deps[run.at].name,
        ),
        run.step == ExperimentStep::Restore <==> run.doing() == ActionView::Restore,
        run.step == ExperimentStep::Update ==> run.doing() == ActionView::Update(
            run.deps[run.at].name,
            run.version,
        ),
        run.step == ExperimentStep::Verify ==> run.doing() == ActionView::Verify(
            run.deps[run.at].dep_type,
        ),
        run.step == ExperimentStep::Finished <==> run.doing() == ActionView::Finish,
        run.step == ExperimentStep::Failed <==> run.doing() == ActionView::Abort,
{
}

/// Whether the action runs cargo with exactly these arguments.
pub open spec fn runs_with(action: ProjectAction, args: Seq<Seq<char>>) -> bool {
    action matches ProjectAction::Run(task, _) && project::build_args(task) == args
}

/// The first command after the move of a normal or build dependency is the
/// locked build, and its result is that of the experiment. After the move of a
/// dependency of tests and benches the tests are compiled, and then the benches;
/// the crate is never built for it.
pub proof fn law_move_is_verified_by_its_kind(run: RunView, kind: DepType)
    requires
        run.step == ExperimentStep::Verify,
        run.deps[run.at].dep_type == kind,
    ensures
        run.doing() matches ActionView::Verify(asked) && {
            let permit = project::VerifyStep::first(asked);
            let command = permit.after(Reply::Yes);
            let second = command.after(Reply::Yes);
            &&& permit.doing() is Acquire
            &&& kind != DepType::Dev ==> {
                &&& runs_with(command.doing(), seq!["+1.95.0"@, "build"@, "--locked"@])
                &&& second.doing() == ProjectAction::Finish(true)
                &&& command.after(Reply::No).doing() == ProjectAction::Finish(false)
            }
            &&& kind == DepType::Dev ==> {
                &&& runs_with(command.doing(), seq!["+1.95.0"@, "test"@, "--no-run"@, "--locked"@])
                &&& runs_with(second.doing(), seq!["+1.95.0"@, "bench"@, "--no-run"@, "--locked"@])
                &&& second.after(Reply::Yes).doing() == ProjectAction::Finish(true)
                &&& command.after(Reply::No).doing() == ProjectAction::Finish(false)
                &&& second.after(Reply::No).doing() == ProjectAction::Finish(false)
            }
        },
{
}

/// From the choice of a version to its verification the run stays with the same
/// dependency, the same version and the same records.
pub proof fn law_version_is_carried_through(run: RunView, event: EventView)
    requires
        run.step == ExperimentStep::Restore || run.step == ExperimentStep::Update,
        run.after(event).step == ExperimentStep::Update || run.after(event).step
            == ExperimentStep::Verify,
    ensures
        run.after(event).at == run.at,
        run.after(event).version == run.version,
        run.after(event).deps == run.deps,
        run.after(event).failures == run.failures,
{
}

/// A run that goes on from a place goes on with the first dependency from there
/// whose requirement can be read, and is done where there is none.
pub proof fn law_next_dependency_is_the_first_readable(run: RunView, from: int)
    requires
        0 <= from <= run.deps.len(),
    ensures
        ({
            let next = run.open(from);
            &&& from <= next.at <= run.deps.len()
            &&& forall|i: int|
                from <= i < next.at ==> !versions::version_req_valid((#[trigger] run.deps[i]).req)
            &&& next.at < run.deps.len() <==> next.step == ExperimentStep::AskDatabase
            &&& next.at == run.deps.len() <==> next.step == ExperimentStep::Finished
            &&& next.at < run.deps.len() ==> versions::version_req_valid(run.deps[next.at].req)
            &&& next.deps == run.deps && next.failures == run.failures
        }),
        RunView::first(run.deps).deps == run.deps,
        RunView::first(run.deps).failures == Map::<Seq<char>, FailureView>::empty(),
        RunView::first(run.deps).at == run.open(0).at,
        RunView::first(run.deps).step == run.open(0).step,
{
    lemma_next_readable(run.deps, from);
}

proof fn lemma_next_readable(deps: Seq<DependencyView>, from: int)
    requires
        0 <= from <= deps.len(),
    ensures
        from <= next_readable(deps, from) <= deps.len(),
        forall|i: int|
            from <= i < next_readable(deps, from) ==> !versions::version_req_valid(
                (#[trigger] deps[i]).req,
            ),
        next_readable(deps, from) < deps.len() ==> versions::version_req_valid(
            deps[next_readable(deps, from)].req,
        ),
    decreases deps.len() - from,
{
    if from < deps.len() && !versions::version_req_valid(deps[from].req) {
        lemma_next_readable(deps, from + 1);
    }
}

/// How a run leaves a dependency: for the next one, unless a step could not be
/// carried out. It is left with a record exactly where its move was verified and
/// failed.
pub proof fn law_dependency_is_left_for_the_next(run: RunView, event: EventView)
    ensures
        run.step == ExperimentStep::Verify && event == EventView::Went(Reply::Yes) ==> run.after(
            event,
        ) == run.open(run.at + 1),
        run.step == ExperimentStep::Verify && event == EventView::Went(Reply::No) ==> {
            &&& run.after(event).at == run.open(run.at + 1).at
            &&& run.after(event).step == run.open(run.at + 1).step
            &&& run.after(event).failures == failures::failed(
                run.failures,
                run.deps[run.at],
                run.version,
            )
        },
        run.step == ExperimentStep::Update && event == EventView::Went(Reply::No) ==> run.after(
            event,
        ) == run.open(run.at + 1),
        (run.step == ExperimentStep::AskDatabase || run.step == ExperimentStep::AskRegistry) && event
            == EventView::QueryFailed ==> run.after(event) == run.open(run.at + 1),
        (run.step == ExperimentStep::Restore || run.step == ExperimentStep::Update || run.step
            == ExperimentStep::Verify) && event == EventView::Went(Reply::Error) ==> run.after(
            event,
        ).step == ExperimentStep::Failed,
        run.step == ExperimentStep::Restore && event == EventView::Went(Reply::No) ==> run.after(
            event,
        ).step == ExperimentStep::Failed,
        run.step == ExperimentStep::AskDatabase && event == EventView::Versions(None) ==> run.after(
            event,
        ).step == ExperimentStep::AskRegistry && run.after(event).at == run.at,
{
}

/// A version is chosen exactly where the list offers one that is admitted: one
/// of the list, that reads as a version and meets the requirement of the
/// dependency at hand. The run then stays with that dependency. Else the
/// dependency is left.
pub proof fn law_chosen_version_is_admitted(run: RunView, list: Seq<Seq<char>>)
    requires
        run.step == ExperimentStep::AskDatabase || run.step == ExperimentStep::AskRegistry,
    ensures
        ({
            let req = run.deps[run.at].req;
            let after = run.after(EventView::Versions(Some(list)));
            if exists|i: int|
                0 <= i < list.len() && versions::version_valid(#[trigger] list[i])
                    && versions::version_req_matches(req, list[i]) {
                &&& after.step == ExperimentStep::Restore
                &&& after.at == run.at && after.deps == run.deps && after.failures == run.failures
                &&& list.contains(after.version)
                &&& versions::version_valid(after.version)
                &&& versions::version_req_matches(req, after.version)
            } else {
                after == run.open(run.at + 1)
            }
        }),
{
    versions::law_newest_is_admitted(list, run.deps[run.at].req);
}

/// An action and an event say what they hold.
pub proof fn law_action_and_event_say_what_they_hold(action: ExperimentAction, event: ExperimentEvent)
    ensures
        match action {
            ExperimentAction::AskDatabase(name) => action@ == ActionView::AskDatabase(name@),
            ExperimentAction::AskRegistry(name) => action@ == ActionView::AskRegistry(name@),
            ExperimentAction::Restore => action@ == ActionView::Restore,
            ExperimentAction::Update(name, version) => action@ == ActionView::Update(
                name@,
                version@,
            ),
            ExperimentAction::Verify(kind) => action@ == ActionView::Verify(kind),
            ExperimentAction::Finish => action@ == ActionView::Finish,
            ExperimentAction::Abort => action@ == ActionView::Abort,
        },
        match event {
            ExperimentEvent::Versions(Some(list)) => event@ matches EventView::Versions(Some(said))
                && said.len() == list@.len() && forall|i: int|
                0 <= i < list@.len() ==> #[trigger] said[i] == list@[i]@,
            ExperimentEvent::Versions(None) => event@ == EventView::Versions(None),
            ExperimentEvent::QueryFailed => event@ == EventView::QueryFailed,
            ExperimentEvent::Went(reply) => event@ == EventView::Went(reply),
        },
{
}

/// An event that does not answer the step at hand changes nothing: versions
/// answer the two questions, and how a step went answers the three steps in the
/// source directory. A run that has ended stays as it is.
pub proof fn law_only_answers_count(run: RunView, event: EventView)
    requires
        ({
            let asks = run.step == ExperimentStep::AskDatabase || run.step
                == ExperimentStep::AskRegistry;
            let works = run.step == ExperimentStep::Restore || run.step == ExperimentStep::Update
                || run.step == ExperimentStep::Verify;
            (!asks && !works) || (asks && event is Went) || (works && !(event is Went))
        }),
    ensures
        run.after(event) == run,
{
}

} // verus!
