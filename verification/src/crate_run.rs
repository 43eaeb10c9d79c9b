//! The compile run of one crate: from its index entry through the baseline check
//! and the update experiments to the stored result.

use vstd::prelude::*;
use crate::deps::{self, DependencyView, IndexDepsByKind};
use crate::json::{Json, JsonView};
use crate::project::Reply;
use crate::records::Milestone;

verus! {

/// A crate with more dependencies than this is not compiled.
pub const HEAVY_DEPS_SKIP_THRESHOLD: usize = 50;

/// What is done for the crate.
#[derive(Debug, Clone, Copy, PartialEq, Eq, Structural)]
pub enum CrateStep {
    /// Is the source directory there, and a directory?
    FindDirectory,
    /// Ask the database for the dependencies of the newest version.
    LoadDependencies,
    /// Store that the crate was skipped, with its number of dependencies.
    MarkHeavyDepsSkipped(i32),
    /// Check that the crate compiles as it is.
    CheckBaseline,
    /// Store that it does not.
    MarkInitialCompileFailed,
    /// Try the updates.
    RunExperiments,
    /// Store what broke.
    RecordResult,
    /// Nothing is left to do.
    Finished,
    /// The source directory is not there.
    NoDirectory,
    /// A step could not be carried out.
    Failed,
}

/// What comes back from a step.
#[derive(Debug)]
pub enum CrateEvent {
    /// The dependencies in the index; none where it has no entry for the version.
    Dependencies(Option<Json>),
    /// How any other step went.
    Went(Reply),
}

/// What a [`CrateEvent`] says.
pub enum EventView {
    Dependencies(Option<JsonView>),
    Went(Reply),
}

impl View for CrateEvent {
    type V = EventView;

    open spec fn view(&self) -> EventView {
        match self {
            CrateEvent::Dependencies(Some(doc)) => EventView::Dependencies(Some(doc@)),
            CrateEvent::Dependencies(None) => EventView::Dependencies(None),
            CrateEvent::Went(reply) => EventView::Went(*reply),
        }
    }
}

/// The run of one crate: the step, and the dependencies once they are known.
pub struct RunView {
    pub step: CrateStep,
    pub deps: Seq<DependencyView>,
}

/// A count, as the database stores it.
pub open spec fn stored_count(n: nat) -> i32 {
    if n <= i32::MAX {
        n as i32
    } else {
        i32::MAX
    }
}

/// What is done with a crate that has `n` dependencies.
pub open spec fn step_for(n: nat) -> CrateStep {
    if n > HEAVY_DEPS_SKIP_THRESHOLD {
        CrateStep::MarkHeavyDepsSkipped(stored_count(n))
    } else if n == 0 {
        CrateStep::Finished
    } else {
        CrateStep::CheckBaseline
    }
}

impl RunView {
    pub open spec fn first() -> RunView {
        RunView { step: CrateStep::FindDirectory, deps: Seq::empty() }
    }

    pub open spec fn at(self, step: CrateStep) -> RunView {
        RunView { step, ..self }
    }

    pub open spec fn when(self, reply: Reply, step: CrateStep, otherwise: CrateStep) -> RunView {
        if reply == Reply::Yes {
            self.at(step)
        } else {
            self.at(otherwise)
        }
    }

    /// What follows an event. An event that does not answer the step changes
    /// nothing.
    pub open spec fn after(self, event: EventView) -> RunView {
        match (self.step, event) {
            (CrateStep::FindDirectory, EventView::Went(reply)) => self.when(
                reply,
                CrateStep::LoadDependencies,
                CrateStep::NoDirectory,
            ),
            (CrateStep::LoadDependencies, EventView::Dependencies(Some(doc))) => RunView {
                step: step_for(deps::listed_dependencies(doc).len()),
                deps: deps::listed_dependencies(doc),
            },
            (CrateStep::LoadDependencies, EventView::Dependencies(None)) => self.at(
                CrateStep::Finished,
            ),
            (CrateStep::LoadDependencies, EventView::Went(_)) => self.at(CrateStep::Failed),
            (CrateStep::CheckBaseline, EventView::Went(reply)) => match reply {
                Reply::Yes => self.at(CrateStep::RunExperiments),
                Reply::No => self.at(CrateStep::MarkInitialCompileFailed),
                Reply::Error => self.at(CrateStep::Failed),
            },
            (CrateStep::RunExperiments, EventView::Went(reply)) => self.when(
                reply,
                CrateStep::RecordResult,
                CrateStep::Failed,
            ),
            (CrateStep::MarkHeavyDepsSkipped(_), EventView::Went(reply)) => self.when(
                reply,
                CrateStep::Finished,
                CrateStep::Failed,
            ),
            (CrateStep::MarkInitialCompileFailed, EventView::Went(reply)) => self.when(
                reply,
                CrateStep::Finished,
                CrateStep::Failed,
            ),
            (CrateStep::RecordResult, EventView::Went(reply)) => self.when(
                reply,
                CrateStep::Finished,
                CrateStep::Failed,
            ),
            _ => self,
        }
    }
}

/// The run of one crate.
pub struct CrateRun {
    step: CrateStep,
    deps: IndexDepsByKind,
    all: Ghost<Seq<DependencyView>>,
}

impl View for CrateRun {
    type V = RunView;

    closed spec fn view(&self) -> RunView {
        RunView { step: self.step, deps: self.all@ }
    }
}

impl CrateRun {
    #[verifier::type_invariant]
    spec fn sorts_all(&self) -> bool {
        self.deps.sorts(self.all@)
    }

    pub fn start() -> (run: CrateRun)
        ensures
            run@ == RunView::first(),
    {
        let deps = IndexDepsByKind::new();
        proof {
            reveal(Seq::filter);
            let none = Seq::<DependencyView>::empty();
            assert(deps::dep_views(deps.normal@) =~= none);
            assert(deps::dep_views(deps.build@) =~= none);
            assert(deps::dep_views(deps.dev@) =~= none);
        }
        CrateRun { step: CrateStep::FindDirectory, deps, all: Ghost(Seq::empty()) }
    }

    /// What to do next.
    pub fn step(&self) -> (step: CrateStep)
        ensures
            step == self@.step,
    {
        self.step
    }

    /// The dependencies, by kind.
    pub fn deps(&self) -> (r: &IndexDepsByKind)
        ensures
            r.sorts(self@.deps),
    {
        proof {
            use_type_invariant(self);
        }
        &self.deps
    }

    fn at(self, step: CrateStep) -> (run: CrateRun)
        ensures
            run@ == self@.at(step),
    {
        proof {
            use_type_invariant(&self);
        }
        let CrateRun { step: _, deps, all } = self;
        CrateRun { step, deps, all }
    }

    fn when(self, reply: Reply, step: CrateStep, otherwise: CrateStep) -> (run: CrateRun)
        ensures
            run@ == self@.when(reply, step, otherwise),
    {
        match reply {
            Reply::Yes => self.at(step),
            _ => self.at(otherwise),
        }
    }

    /// Takes what came back from a step.
    pub fn next(self, event: CrateEvent) -> (run: CrateRun)
        ensures
            run@ == self@.after(event@),
    {
        match (self.step, event) {
            (CrateStep::FindDirectory, CrateEvent::Went(reply)) => self.when(
                reply,
                CrateStep::LoadDependencies,
                CrateStep::NoDirectory,
            ),
            (CrateStep::LoadDependencies, CrateEvent::Dependencies(Some(doc))) => {
                let deps = deps::collect_deps_by_kind_from_index_deps(&doc);
                let ghost all = deps::listed_dependencies(doc@);
                let total: usize = deps.normal.len() + deps.build.len() + deps.dev.len();
                let step = if total > HEAVY_DEPS_SKIP_THRESHOLD {
                    let count: i32 = if total <= i32::MAX as usize {
                        total as i32
                    } else {
                        i32::MAX
                    };
                    CrateStep::MarkHeavyDepsSkipped(count)
                } else if total == 0 {
                    CrateStep::Finished
                } else {
                    CrateStep::CheckBaseline
                };
                CrateRun { step, deps, all: Ghost(all) }
            },
            (CrateStep::LoadDependencies, CrateEvent::Dependencies(None)) => self.at(
                CrateStep::Finished,
            ),
            (CrateStep::LoadDependencies, CrateEvent::Went(_)) => self.at(CrateStep::Failed),
            (CrateStep::CheckBaseline, CrateEvent::Went(reply)) => match reply {
                Reply::Yes => self.at(CrateStep::RunExperiments),
                Reply::No => self.at(CrateStep::MarkInitialCompileFailed),
                Reply::Error => self.at(CrateStep::Failed),
            },
            (CrateStep::RunExperiments, CrateEvent::Went(reply)) => self.when(
                reply,
                CrateStep::RecordResult,
                CrateStep::Failed,
            ),
            (CrateStep::MarkHeavyDepsSkipped(_), CrateEvent::Went(reply)) => self.when(
                reply,
                CrateStep::Finished,
                CrateStep::Failed,
            ),
            (CrateStep::MarkInitialCompileFailed, CrateEvent::Went(reply)) => self.when(
                reply,
                CrateStep::Finished,
                CrateStep::Failed,
            ),
            (CrateStep::RecordResult, CrateEvent::Went(reply)) => self.when(
                reply,
                CrateStep::Finished,
                CrateStep::Failed,
            ),
            _ => self,
        }
    }
}

/// How everything outside answers one run: the index entry, and how each other
/// step went.
pub struct Answers {
    pub dependencies: Result<Option<JsonView>, ()>,
    pub steps: spec_fn(CrateStep) -> Reply,
}

impl Answers {
    pub open spec fn to(self, step: CrateStep) -> EventView {
        match (step, self.dependencies) {
            (CrateStep::LoadDependencies, Ok(entry)) => EventView::Dependencies(entry),
            (CrateStep::LoadDependencies, Err(_)) => EventView::Went(Reply::Error),
            _ => EventView::Went((self.steps)(step)),
        }
    }

    pub open spec fn yes(self, step: CrateStep) -> bool {
        (self.steps)(step) == Reply::Yes
    }
}

/// Where a run gets in `steps` steps with these answers.
pub open spec fn driven(run: RunView, answers: Answers, steps: nat) -> RunView
    decreases steps,
{
    if steps == 0 {
        run
    } else {
        driven(run.after(answers.to(run.step)), answers, (steps - 1) as nat)
    }
}

/// The step with which a run ends, told without the order of the steps.
pub open spec fn outcome(answers: Answers) -> CrateStep {
    let count = match answers.dependencies {
        Ok(Some(doc)) => deps::listed_dependencies(doc).len(),
        _ => 0,
    };
    let heavy = CrateStep::MarkHeavyDepsSkipped(stored_count(count));
    if !answers.yes(CrateStep::FindDirectory) {
        CrateStep::NoDirectory
    } else if answers.dependencies is Err {
        CrateStep::Failed
    } else if count == 0 {
        CrateStep::Finished
    } else if count > HEAVY_DEPS_SKIP_THRESHOLD {
        if answers.yes(heavy) {
            CrateStep::Finished
        } else {
            CrateStep::Failed
        }
    } else {
        match (answers.steps)(CrateStep::CheckBaseline) {
            Reply::Error => CrateStep::Failed,
            Reply::No => if answers.yes(CrateStep::MarkInitialCompileFailed) {
                CrateStep::Finished
            } else {
                CrateStep::Failed
            },
            Reply::Yes => if answers.yes(CrateStep::RunExperiments) && answers.yes(
                CrateStep::RecordResult,
            ) {
                CrateStep::Finished
            } else {
                CrateStep::Failed
            },
        }
    }
}

/// A run ends within five steps, and ends as `outcome` says: without a source
/// directory it is refused; a crate without an index entry or without
/// dependencies is left alone; one with too many is only marked; any other is
/// checked, and then either marked as not compiling or experimented with and
/// its result stored.
pub proof fn law_crate_outcome(answers: Answers)
    ensures
        driven(RunView::first(), answers, 5).step == outcome(answers),
{
    reveal_with_fuel(driven, 6);
}

/// No experiment without a passed check, no check but for a crate with some
/// dependencies and not too many, and no stored result without experiments.
pub proof fn law_experiments_need_a_baseline(run: RunView, event: EventView)
    ensures
        run.after(event).step == CrateStep::RunExperiments && run.step != CrateStep::RunExperiments
            ==> run.step == CrateStep::CheckBaseline && event == EventView::Went(Reply::Yes),
        run.after(event).step == CrateStep::CheckBaseline && run.step != CrateStep::CheckBaseline
            ==> 1 <= run.after(event).deps.len() <= HEAVY_DEPS_SKIP_THRESHOLD,
        run.after(event).step == CrateStep::RecordResult && run.step != CrateStep::RecordResult
            ==> run.step == CrateStep::RunExperiments && event == EventView::Went(Reply::Yes),
{
}

/// Whether a crate with these dependencies in the index needs no compile run.
pub fn has_no_dependencies(deps_json: &Json) -> (none: bool)
    ensures
        none == (deps::listed_dependencies(deps_json@).len() == 0),
{
    let found = deps::collect_deps_by_kind_from_index_deps(deps_json);
    found.normal.is_empty() && found.build.is_empty() && found.dev.is_empty()
}

/// What is stored about a crate ahead of the compile run: one whose newest
/// version is in the index without dependencies counts as handled.
pub fn precompile_milestone(entry: Option<&Json>) -> (r: Option<Milestone>)
    ensures
        r is Some <==> entry is Some && deps::listed_dependencies(entry->0@).len() == 0,
        r is Some ==> r->0 == Milestone::CompileHandled,
{
    match entry {
        Some(deps_json) => if has_no_dependencies(deps_json) {
            Some(Milestone::CompileHandled)
        } else {
            None
        },
        None => None,
    }
}

/// Once the dependencies of a crate are loaded, the run holds exactly those that
/// the document lists, of every kind, and holds them to its end: they are what
/// the baseline check and the experiments are given.
pub proof fn law_run_holds_what_is_listed(run: RunView, doc: JsonView, event: EventView)
    ensures
        run.step == CrateStep::LoadDependencies ==> run.after(
            EventView::Dependencies(Some(doc)),
        ).deps == deps::listed_dependencies(doc),
        run.step != CrateStep::LoadDependencies ==> run.after(event).deps == run.deps,
        !(event matches EventView::Dependencies(Some(_))) ==> run.after(event).deps == run.deps,
{
}

/// Each item of the loaded document that has a name is among the dependencies of
/// the run, with its own kind, and there are no more of them than there are such
/// items.
pub proof fn law_every_named_item_is_held(run: RunView, items: Seq<JsonView>, i: int)
    requires
        run.step == CrateStep::LoadDependencies,
        0 <= i < items.len(),
    ensures
        ({
            let held = run.after(EventView::Dependencies(Some(JsonView::Array(items)))).deps;
            &&& held.len() <= items.len()
            &&& deps::dependency_of(items[i]) matches Some(d) ==> held.contains(d)
            &&& (forall|k: int|
                0 <= k < items.len() ==> deps::dependency_of(#[trigger] items[k]) is Some)
                ==> held.len() == items.len() && held[i] == deps::dependency_of(items[i])->0
        }),
{
    lemma_held(items, i);
}

proof fn lemma_held(items: Seq<JsonView>, i: int)
    requires
        0 <= i < items.len(),
    ensures
        deps::dependencies(items).len() <= items.len(),
        deps::dependency_of(items[i]) matches Some(d) ==> deps::dependencies(items).contains(d),
        (forall|k: int| 0 <= k < items.len() ==> deps::dependency_of(#[trigger] items[k]) is Some)
            ==> deps::dependencies(items).len() == items.len() && deps::dependencies(items)[i]
            == deps::dependency_of(items[i])->0,
    decreases items.len(),
{
    let before = items.drop_last();
    let held = deps::dependencies(items);
    let earlier = deps::dependencies(before);
    reveal_with_fuel(deps::dependencies, 2);
    if before.len() > 0 {
        lemma_held(
            before,
            if i < before.len() {
                i
            } else {
                0
            },
        );
    }
    if forall|k: int| 0 <= k < items.len() ==> deps::dependency_of(#[trigger] items[k]) is Some {
        assert forall|k: int| 0 <= k < before.len() implies deps::dependency_of(
            #[trigger] before[k],
        ) is Some by {
            assert(before[k] == items[k]);
        }
        assert(deps::dependency_of(items[items.len() - 1]) is Some);
    }
    if let Some(d) = deps::dependency_of(items[i]) {
        if i < before.len() {
            assert(before[i] == items[i]);
            let j = choose|j: int| 0 <= j < earlier.len() && earlier[j] == d;
            assert(held[j] == d);
        } else {
            assert(held[held.len() - 1] == d);
        }
    }
}

/// What is done once the dependencies are known goes by their number: nothing
/// for a crate without any, the check for one with up to fifty, and for one with
/// more a mark that tells how many there are.
pub proof fn law_number_of_dependencies_decides(run: RunView, doc: JsonView)
    requires
        run.step == CrateStep::LoadDependencies,
    ensures
        ({
            let n = deps::listed_dependencies(doc).len();
            let after = run.after(EventView::Dependencies(Some(doc))).step;
            &&& n == 0 <==> after == CrateStep::Finished
            &&& 1 <= n <= 50 <==> after == CrateStep::CheckBaseline
            &&& 50 < n <= i32::MAX ==> after == CrateStep::MarkHeavyDepsSkipped(n as i32)
            &&& n > i32::MAX ==> after == CrateStep::MarkHeavyDepsSkipped(i32::MAX)
        }),
        run.after(EventView::Dependencies(None)).step == CrateStep::Finished,
{
}

/// How each step other than loading the dependencies leads on.
pub proof fn law_steps_lead_on(run: RunView, reply: Reply)
    ensures
        ({
            let after = run.after(EventView::Went(reply)).step;
            &&& run.step == CrateStep::FindDirectory ==> (after == CrateStep::LoadDependencies <==> reply
                == Reply::Yes) && (after == CrateStep::NoDirectory <==> reply != Reply::Yes)
            &&& run.step == CrateStep::LoadDependencies ==> after == CrateStep::Failed
            &&& run.step == CrateStep::CheckBaseline ==> {
                &&& reply == Reply::Yes <==> after == CrateStep::RunExperiments
                &&& reply == Reply::No <==> after == CrateStep::MarkInitialCompileFailed
                &&& reply == Reply::Error <==> after == CrateStep::Failed
            }
            &&& run.step == CrateStep::RunExperiments ==> (after == CrateStep::RecordResult <==> reply
                == Reply::Yes) && (after == CrateStep::Failed <==> reply != Reply::Yes)
            &&& run.step is MarkHeavyDepsSkipped || run.step == CrateStep::MarkInitialCompileFailed
                || run.step == CrateStep::RecordResult ==> (after == CrateStep::Finished <==> reply
                == Reply::Yes) && (after == CrateStep::Failed <==> reply != Reply::Yes)
            &&& run.step == CrateStep::Finished || run.step == CrateStep::NoDirectory || run.step
                == CrateStep::Failed ==> after == run.step
        }),
        RunView::first().step == CrateStep::FindDirectory,
{
}

/// An event says what it holds.
pub proof fn law_event_says_what_it_holds(event: CrateEvent)
    ensures
        match event {
            CrateEvent::Dependencies(Some(doc)) => event@ == EventView::Dependencies(Some(doc@)),
            CrateEvent::Dependencies(None) => event@ == EventView::Dependencies(None),
            CrateEvent::Went(reply) => event@ == EventView::Went(reply),
        },
{
}

/// An event that does not answer the step at hand changes nothing: dependencies
/// answer only the question for them.
pub proof fn law_only_answers_count(run: RunView, event: EventView)
    requires
        run.step != CrateStep::LoadDependencies,
        event is Dependencies,
    ensures
        run.after(event) == run,
{
}

} // verus!
