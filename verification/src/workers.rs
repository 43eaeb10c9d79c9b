//! The compile pool: one producer that reads the crates page by page, and the
//! workers that take them from it.

use vstd::prelude::*;
use vstd::string::*;
use crate::project::{self, ProjectAction, Reply};
use crate::text;

verus! {

/// How many crates are read from the database at once.
pub const COMPILE_BATCH_SIZE: u64 = 2000;

/// How many workers there are.
pub const COMPILE_CONCURRENCY: usize = 10;

/// After how many crates a worker clears its cargo home.
pub const WORKER_CARGO_HOME_CLEAN_INTERVAL: u64 = 20;

/// A crate that is waiting to be compiled.
#[derive(Debug)]
pub struct CompileItem {
    pub id: i32,
    pub name: String,
    pub version_new: String,
}

/// What a [`CompileItem`] says.
pub struct ItemView {
    pub id: i32,
    pub name: Seq<char>,
    pub version_new: Seq<char>,
}

impl View for CompileItem {
    type V = ItemView;

    open spec fn view(&self) -> ItemView {
        ItemView { id: self.id, name: self.name@, version_new: self.version_new@ }
    }
}

/// The views of a list of crates, in order.
pub open spec fn item_views(items: Seq<CompileItem>) -> Seq<ItemView> {
    items.map_values(|item: CompileItem| item@)
}

/// What the producer does.
#[derive(Debug, Clone, Copy, PartialEq, Eq, Structural)]
pub enum ProducerStep {
    /// Read the page of crates after the last one.
    Fetch,
    /// Hand the next crate of the page to the workers.
    Send,
    Finished,
    Failed,
}

/// What comes back to the producer.
#[derive(Debug)]
pub enum ProducerEvent {
    Page(Vec<CompileItem>),
    PageFailed,
    Sent,
    /// No worker takes crates any more.
    Closed,
}

/// What a [`ProducerEvent`] says.
pub enum ProducerEventView {
    Page(Seq<ItemView>),
    PageFailed,
    Sent,
    Closed,
}

impl View for ProducerEvent {
    type V = ProducerEventView;

    open spec fn view(&self) -> ProducerEventView {
        match self {
            ProducerEvent::Page(items) => ProducerEventView::Page(item_views(items@)),
            ProducerEvent::PageFailed => ProducerEventView::PageFailed,
            ProducerEvent::Sent => ProducerEventView::Sent,
            ProducerEvent::Closed => ProducerEventView::Closed,
        }
    }
}

/// The producer: the id of the last crate handed out, and the crates of the
/// page that are still to be handed out.
pub struct ProducerView {
    pub step: ProducerStep,
    pub after_id: i32,
    pub page: Seq<ItemView>,
}

impl ProducerView {
    pub open spec fn first() -> ProducerView {
        ProducerView { step: ProducerStep::Fetch, after_id: 0, page: Seq::empty() }
    }

    /// What follows an event. An event that does not answer the step changes
    /// nothing.
    pub open spec fn after(self, event: ProducerEventView) -> ProducerView {
        match (self.step, event) {
            (ProducerStep::Fetch, ProducerEventView::Page(page)) => if page.len() == 0 {
                ProducerView { step: ProducerStep::Finished, ..self }
            } else {
                ProducerView { step: ProducerStep::Send, page, ..self }
            },
            (ProducerStep::Fetch, ProducerEventView::PageFailed) => ProducerView {
                step: ProducerStep::Failed,
                ..self
            },
            (ProducerStep::Send, ProducerEventView::Sent) => ProducerView {
                step: if self.page.len() <= 1 {
                    ProducerStep::Fetch
                } else {
                    ProducerStep::Send
                },
                after_id: self.page[0].id,
                page: self.page.drop_first(),
            },
            (ProducerStep::Send, ProducerEventView::Closed) => ProducerView {
                step: ProducerStep::Finished,
                after_id: self.page[0].id,
                page: self.page.drop_first(),
            },
            _ => self,
        }
    }

    /// While crates are handed out there is one to hand out.
    pub open spec fn sound(self) -> bool {
        self.step == ProducerStep::Send ==> self.page.len() > 0
    }

    /// Whether the crates still to be handed out have rising ids, above the last.
    pub open spec fn rising(self) -> bool {
        &&& forall|i: int| 0 <= i < self.page.len() ==> self.after_id < (#[trigger] self.page[i]).id
        &&& forall|i: int, j: int|
            0 <= i < j < self.page.len() ==> (#[trigger] self.page[i]).id < (
            #[trigger] self.page[j]).id
    }
}

/// Whether a page answers the producer's question: crates after the last one,
/// by rising id.
pub open spec fn answers(event: ProducerEventView, after_id: i32) -> bool {
    event matches ProducerEventView::Page(page) ==> ProducerView {
        step: ProducerStep::Send,
        after_id,
        page,
    }.rising()
}

/// Where a producer gets with these events.
pub open spec fn driven(producer: ProducerView, events: Seq<ProducerEventView>) -> ProducerView
    decreases events.len(),
{
    if events.len() == 0 {
        producer
    } else {
        driven(producer, events.drop_last()).after(events.last())
    }
}

/// The crates that a producer hands out with these events, in order.
pub open spec fn handed_out(
    producer: ProducerView,
    events: Seq<ProducerEventView>,
) -> Seq<ItemView>
    decreases events.len(),
{
    if events.len() == 0 {
        Seq::empty()
    } else {
        let before = driven(producer, events.drop_last());
        let handed = handed_out(producer, events.drop_last());
        if before.step == ProducerStep::Send && events.last() == ProducerEventView::Sent {
            handed.push(before.page[0])
        } else {
            handed
        }
    }
}

/// Whether every page answers the question that was asked.
pub open spec fn well_answered(producer: ProducerView, events: Seq<ProducerEventView>) -> bool
    decreases events.len(),
{
    events.len() > 0 ==> well_answered(producer, events.drop_last()) && answers(
        events.last(),
        driven(producer, events.drop_last()).after_id,
    )
}

/// Where the database answers with the crates after the last one, by rising id,
/// the crates are handed out by rising id: none is handed out twice.
pub proof fn law_no_crate_twice(events: Seq<ProducerEventView>)
    requires
        well_answered(ProducerView::first(), events),
    ensures
        driven(ProducerView::first(), events).rising(),
        driven(ProducerView::first(), events).sound(),
        ({
            let handed = handed_out(ProducerView::first(), events);
            &&& forall|i: int|
                0 <= i < handed.len() ==> (#[trigger] handed[i]).id <= driven(
                    ProducerView::first(),
                    events,
                ).after_id
            &&& forall|i: int, j: int|
                0 <= i < j < handed.len() ==> (#[trigger] handed[i]).id < (#[trigger] handed[j]).id
        }),
    decreases events.len(),
{
    if events.len() > 0 {
        law_no_crate_twice(events.drop_last());
        let before = driven(ProducerView::first(), events.drop_last());
        let after = driven(ProducerView::first(), events);
        let earlier = handed_out(ProducerView::first(), events.drop_last());
        let handed = handed_out(ProducerView::first(), events);
        assert(after.after_id >= before.after_id);
        if before.step == ProducerStep::Send && events.last() == ProducerEventView::Sent {
            assert(before.page[0].id > before.after_id);
            assert(handed == earlier.push(before.page[0]));
            assert forall|i: int| 0 <= i < handed.len() implies (#[trigger] handed[i]).id
                <= after.after_id by {
                if i < earlier.len() {
                    assert(handed[i] == earlier[i]);
                }
            }
            assert forall|i: int, j: int| 0 <= i < j < handed.len() implies (
            #[trigger] handed[i]).id < (#[trigger] handed[j]).id by {
                assert(handed[i] == earlier[i]);
                if j < earlier.len() {
                    assert(handed[j] == earlier[j]);
                }
            }
        } else {
            assert(handed == earlier);
            assert forall|i: int| 0 <= i < handed.len() implies (#[trigger] handed[i]).id
                <= after.after_id by {
                assert(earlier[i].id <= before.after_id);
            }
        }
    }
}

/// The answers when a page comes and its first `n` crates are taken.
pub open spec fn page_events(page: Seq<ItemView>, n: nat) -> Seq<ProducerEventView> {
    seq![ProducerEventView::Page(page)] + Seq::new(n, |i: int| ProducerEventView::Sent)
}

proof fn lemma_page(producer: ProducerView, page: Seq<ItemView>, n: nat)
    requires
        producer.step == ProducerStep::Fetch,
        0 < page.len(),
        n <= page.len(),
    ensures
        driven(producer, page_events(page, n)) == (ProducerView {
            step: if n < page.len() {
                ProducerStep::Send
            } else {
                ProducerStep::Fetch
            },
            after_id: if n == 0 {
                producer.after_id
            } else {
                page[n - 1].id
            },
            page: page.skip(n as int),
        }),
        handed_out(producer, page_events(page, n)) == page.take(n as int),
    decreases n,
{
    let events = page_events(page, n);
    if n == 0 {
        assert(events.drop_last() =~= Seq::<ProducerEventView>::empty());
        assert(page.skip(0) =~= page);
        assert(page.take(0) =~= Seq::<ItemView>::empty());
        reveal_with_fuel(driven, 2);
        reveal_with_fuel(handed_out, 2);
    } else {
        let m = (n - 1) as nat;
        lemma_page(producer, page, m);
        assert(events.drop_last() =~= page_events(page, m));
        assert(events.last() == ProducerEventView::Sent);
        assert(page.skip(m as int)[0] == page[m as int]);
        assert(page.skip(m as int).drop_first() =~= page.skip(n as int));
        assert(page.take(m as int).push(page[m as int]) =~= page.take(n as int));
    }
}

/// Once a page has come and each of its crates was taken, exactly the crates of
/// the page were handed out, in order, and the producer asks for what comes
/// after the last of them.
pub proof fn law_page_is_handed_out(producer: ProducerView, page: Seq<ItemView>)
    requires
        producer.step == ProducerStep::Fetch,
        0 < page.len(),
    ensures
        handed_out(producer, page_events(page, page.len())) == page,
        driven(producer, page_events(page, page.len())).step == ProducerStep::Fetch,
        driven(producer, page_events(page, page.len())).after_id == page.last().id,
{
    lemma_page(producer, page, page.len());
    assert(page.take(page.len() as int) =~= page);
}

/// The producer of the compile pool.
pub struct Producer {
    step: ProducerStep,
    after_id: i32,
    page: Vec<CompileItem>,
    sent: usize,
}

impl View for Producer {
    type V = ProducerView;

    closed spec fn view(&self) -> ProducerView {
        ProducerView {
            step: self.step,
            after_id: self.after_id,
            page: item_views(self.page@).skip(self.sent as int),
        }
    }
}

impl Producer {
    #[verifier::type_invariant]
    spec fn within_page(&self) -> bool {
        &&& self.sent <= self.page@.len()
        &&& self.step == ProducerStep::Send ==> self.sent < self.page@.len()
    }

    pub fn start() -> (producer: Producer)
        ensures
            producer@ == ProducerView::first(),
    {
        let producer = Producer {
            step: ProducerStep::Fetch,
            after_id: 0,
            page: Vec::new(),
            sent: 0,
        };
        assert(producer@.page =~= Seq::<ItemView>::empty());
        producer
    }

    /// What to do next.
    pub fn step(&self) -> (step: ProducerStep)
        ensures
            step == self@.step,
    {
        self.step
    }

    /// The id after which the next page begins.
    pub fn after_id(&self) -> (id: i32)
        ensures
            id == self@.after_id,
    {
        self.after_id
    }

    /// The crate to hand out.
    pub fn item(&self) -> (r: Option<&CompileItem>)
        ensures
            match r {
                Some(item) => self@.step == ProducerStep::Send && self@.page.len() > 0 && item@
                    == self@.page[0],
                None => self@.step != ProducerStep::Send,
            },
    {
        proof {
            use_type_invariant(self);
        }
        match self.step {
            ProducerStep::Send => Some(&self.page[self.sent]),
            _ => None,
        }
    }

    /// Takes what came back from a step.
    pub fn next(self, event: ProducerEvent) -> (producer: Producer)
        ensures
            producer@ == self@.after(event@),
    {
        proof {
            use_type_invariant(&self);
        }
        let Producer { step, after_id, page, sent } = self;
        match (step, event) {
            (ProducerStep::Fetch, ProducerEvent::Page(items)) => {
                if items.is_empty() {
                    Producer { step: ProducerStep::Finished, after_id, page, sent }
                } else {
                    assert(item_views(items@).skip(0) =~= item_views(items@));
                    Producer { step: ProducerStep::Send, after_id, page: items, sent: 0 }
                }
            },
            (ProducerStep::Fetch, ProducerEvent::PageFailed) => {
                Producer { step: ProducerStep::Failed, after_id, page, sent }
            },
            (ProducerStep::Send, ProducerEvent::Sent) => {
                let after_id: i32 = page[sent].id;
                let step = if page.len() - sent <= 1 {
                    ProducerStep::Fetch
                } else {
                    ProducerStep::Send
                };
                assert(item_views(page@).skip(sent as int).drop_first() =~= item_views(page@).skip(
                    sent + 1,
                ));
                Producer { step, after_id, page, sent: sent + 1 }
            },
            (ProducerStep::Send, ProducerEvent::Closed) => {
                let after_id: i32 = page[sent].id;
                assert(sent < page.len());
                assert(item_views(page@).skip(sent as int).drop_first() =~= item_views(page@).skip(
                    sent + 1,
                ));
                Producer { step: ProducerStep::Finished, after_id, page, sent: sent + 1 }
            },
            _ => Producer { step, after_id, page, sent },
        }
    }
}

/// What a worker does.
#[derive(Debug, Clone, Copy, PartialEq, Eq, Structural)]
pub enum WorkerStep {
    /// Wait for a crate; `Reply::Yes` when one came, else the pool is closed.
    Receive,
    /// Run the crate.
    Process,
    /// Clear the target directory.
    CleanTarget,
    /// Store that the crate was handled.
    MarkHandled,
    /// Clear the caches of the worker's cargo home.
    CleanHome,
    /// Clear them a last time.
    CleanHomeAtEnd,
    Finished,
}

/// A worker, and how many crates it has handled.
#[derive(Debug, Clone, Copy, PartialEq, Eq, Structural)]
pub struct Worker {
    pub step: WorkerStep,
    pub handled: u64,
}

impl Worker {
    /// What follows when the step went as `reply` says. Apart from waiting for a
    /// crate it does not matter how a step went: the target directory is cleared
    /// after every crate.
    pub open spec fn after(self, reply: Reply) -> Worker {
        match self.step {
            WorkerStep::Receive => Worker {
                step: if reply == Reply::Yes {
                    WorkerStep::Process
                } else {
                    WorkerStep::CleanHomeAtEnd
                },
                ..self
            },
            WorkerStep::Process => Worker { step: WorkerStep::CleanTarget, ..self },
            WorkerStep::CleanTarget => Worker { step: WorkerStep::MarkHandled, ..self },
            WorkerStep::MarkHandled => Worker {
                step: if (self.handled + 1) % (WORKER_CARGO_HOME_CLEAN_INTERVAL as int) == 0 {
                    WorkerStep::CleanHome
                } else {
                    WorkerStep::Receive
                },
                handled: (self.handled + 1) as u64,
            },
            WorkerStep::CleanHome => Worker { step: WorkerStep::Receive, ..self },
            WorkerStep::CleanHomeAtEnd => Worker { step: WorkerStep::Finished, ..self },
            WorkerStep::Finished => self,
        }
    }

    pub fn start() -> (worker: Worker)
        ensures
            worker == (Worker { step: WorkerStep::Receive, handled: 0 }),
    {
        Worker { step: WorkerStep::Receive, handled: 0 }
    }

    pub fn next(&self, reply: Reply) -> (worker: Worker)
        requires
            self.handled < u64::MAX,
        ensures
            worker == self.after(reply),
    {
        let yes = reply == Reply::Yes;
        match self.step {
            WorkerStep::Receive => Worker {
                step: if yes {
                    WorkerStep::Process
                } else {
                    WorkerStep::CleanHomeAtEnd
                },
                handled: self.handled,
            },
            WorkerStep::Process => Worker { step: WorkerStep::CleanTarget, handled: self.handled },
            WorkerStep::CleanTarget => Worker {
                step: WorkerStep::MarkHandled,
                handled: self.handled,
            },
            WorkerStep::MarkHandled => {
                let handled: u64 = self.handled + 1;
                let step = if handled % WORKER_CARGO_HOME_CLEAN_INTERVAL == 0 {
                    WorkerStep::CleanHome
                } else {
                    WorkerStep::Receive
                };
                Worker { step, handled }
            },
            WorkerStep::CleanHome => Worker { step: WorkerStep::Receive, handled: self.handled },
            WorkerStep::CleanHomeAtEnd => Worker {
                step: WorkerStep::Finished,
                handled: self.handled,
            },
            WorkerStep::Finished => Worker { step: WorkerStep::Finished, handled: self.handled },
        }
    }
}

/// Where a worker gets when its steps go as `replies` says, one after another.
pub open spec fn worked(worker: Worker, replies: Seq<Reply>) -> Worker
    decreases replies.len(),
{
    if replies.len() == 0 {
        worker
    } else {
        worked(worker, replies.drop_last()).after(replies.last())
    }
}

/// Whatever happens to a crate that a worker took, the worker clears its target
/// directory next, and then stores that the crate was handled: a run that fails
/// does not come back.
pub proof fn law_taken_crate_is_marked(worker: Worker, replies: Seq<Reply>)
    requires
        worker.step == WorkerStep::Process,
        replies.len() == 2,
    ensures
        worked(worker, replies.take(1)).step == WorkerStep::CleanTarget,
        worked(worker, replies).step == WorkerStep::MarkHandled,
        worked(worker, replies).handled == worker.handled,
{
    assert(replies.take(1).drop_last() =~= Seq::<Reply>::empty());
    assert(replies.drop_last() =~= replies.take(1));
    reveal_with_fuel(worked, 3);
}

/// No crate counts as handled before the target directory was cleared after it.
pub proof fn law_target_is_cleared(worker: Worker, reply: Reply)
    ensures
        worker.after(reply).step == WorkerStep::MarkHandled ==> worker.step
            == WorkerStep::CleanTarget,
        worker.after(reply).step == WorkerStep::CleanTarget <==> worker.step
            == WorkerStep::Process,
{
}

/// A worker clears its cargo home exactly after each twentieth crate, and once
/// more when the pool is closed.
pub proof fn law_home_is_cleared(worker: Worker, reply: Reply)
    requires
        worker.handled < u64::MAX,
    ensures
        worker.after(reply).step == WorkerStep::CleanHome <==> worker.step
            == WorkerStep::MarkHandled && worker.after(reply).handled % 20 == 0,
        worker.after(reply).step == WorkerStep::Finished && worker.step != WorkerStep::Finished
            ==> worker.step == WorkerStep::CleanHomeAtEnd,
        worker.after(reply).handled == worker.handled + (if worker.step == WorkerStep::MarkHandled {
            1int
        } else {
            0
        }),
{
}

/// A number with at least two digits.
pub open spec fn two_digits(n: nat) -> Seq<char> {
    if n < 10 {
        seq!['0'] + text::decimal(n)
    } else {
        text::decimal(n)
    }
}

/// The name of a worker's directories.
pub open spec fn worker_name(worker_id: nat) -> Seq<char> {
    "worker_"@ + two_digits(worker_id)
}

/// The name of a worker's directories.
pub fn worker_dir_name(worker_id: usize) -> (name: String)
    ensures
        name@ == worker_name(worker_id as nat),
{
    let digits = text::decimal_text(worker_id as u64);
    if worker_id < 10 {
        let mut padded = String::new();
        padded.push('0');
        assert(padded@ =~= seq!['0']);
        "worker_".to_owned().concat(padded.concat(digits.as_str()).as_str())
    } else {
        "worker_".to_owned().concat(digits.as_str())
    }
}

/// No two workers share a directory.
pub proof fn law_worker_dirs_differ(a: nat, b: nat)
    requires
        worker_name(a) == worker_name(b),
    ensures
        a == b,
{
    lemma_two_digits(a);
    lemma_two_digits(b);
    let prefix = "worker_"@;
    assert(worker_name(a).skip(prefix.len() as int) =~= two_digits(a));
    assert(worker_name(b).skip(prefix.len() as int) =~= two_digits(b));
}

proof fn lemma_two_digits(n: nat)
    ensures
        text::number(two_digits(n)) == n,
{
    text::law_decimal_reads_back(n);
    if n < 10 {
        reveal_with_fuel(text::number, 3);
        assert(two_digits(n).drop_last() =~= seq!['0']);
        assert(seq!['0'].drop_last() =~= Seq::<char>::empty());
    }
}

/// The path of `name` in the directory `dir`.
pub open spec fn path_in(dir: Seq<char>, name: Seq<char>) -> Seq<char> {
    if dir.len() == 0 || dir.last() == '/' {
        dir + name
    } else {
        dir.push('/') + name
    }
}

fn join_path(dir: &str, name: &str) -> (path: String)
    ensures
        path@ == path_in(dir@, name@),
{
    let chars = text::chars_of(dir);
    let mut path = dir.to_owned();
    if chars.len() > 0 && chars[chars.len() - 1] != '/' {
        path.push('/');
    }
    path.concat(name)
}

/// The directory in which the cargo homes of the workers are made.
pub open spec fn homes_in(base: Seq<char>) -> Seq<char> {
    path_in(base, "cratesio-experiment"@)
}

/// The directory in which the cargo homes of the workers are made.
pub fn experiment_dir(cargo_home_base: &str) -> (dir: String)
    ensures
        dir@ == homes_in(cargo_home_base@),
{
    join_path(cargo_home_base, "cratesio-experiment")
}

/// The cargo home of a worker.
pub open spec fn home_of(base: Seq<char>, worker_id: nat) -> Seq<char> {
    path_in(homes_in(base), worker_name(worker_id))
}

/// The target directory of a worker.
pub open spec fn target_of(base: Seq<char>, worker_id: nat) -> Seq<char> {
    path_in(base, worker_name(worker_id))
}

/// The cargo home of a worker.
pub fn worker_cargo_home(cargo_home_base: &str, worker_id: usize) -> (dir: String)
    ensures
        dir@ == home_of(cargo_home_base@, worker_id as nat),
{
    join_path(experiment_dir(cargo_home_base).as_str(), worker_dir_name(worker_id).as_str())
}

/// The target directory of a worker.
pub fn worker_target_dir(cargo_target_base: &str, worker_id: usize) -> (dir: String)
    ensures
        dir@ == target_of(cargo_target_base@, worker_id as nat),
{
    join_path(cargo_target_base, worker_dir_name(worker_id).as_str())
}

proof fn lemma_paths_differ(dir: Seq<char>, a: Seq<char>, b: Seq<char>)
    requires
        path_in(dir, a) == path_in(dir, b),
    ensures
        a == b,
{
    let n = path_in(dir, a).len() - a.len();
    assert(path_in(dir, a).skip(n) =~= a);
    assert(path_in(dir, b).skip(n) =~= b);
}

/// A worker of the pool gets the answer to its step.
pub struct PoolEvent {
    pub worker_id: int,
    pub reply: Reply,
}

/// The pool when the run begins.
pub open spec fn pool_start() -> Seq<Worker> {
    Seq::new(
        COMPILE_CONCURRENCY as nat,
        |i: int| Worker { step: WorkerStep::Receive, handled: 0 },
    )
}

/// The pool after these events, in any order among the workers.
pub open spec fn pool_after(events: Seq<PoolEvent>) -> Seq<Worker>
    decreases events.len(),
{
    if events.len() == 0 {
        pool_start()
    } else {
        let pool = pool_after(events.drop_last());
        let event = events.last();
        if 0 <= event.worker_id < pool.len() {
            pool.update(event.worker_id, pool[event.worker_id].after(event.reply))
        } else {
            pool
        }
    }
}

/// How many of the workers are at a crate.
pub open spec fn at_work(pool: Seq<Worker>) -> nat
    decreases pool.len(),
{
    if pool.len() == 0 {
        0
    } else {
        at_work(pool.drop_last()) + (if pool.last().step == WorkerStep::Process {
            1nat
        } else {
            0
        })
    }
}

/// How many cargo commands run, when each worker at a crate is at the action
/// that `actions` gives for it.
pub open spec fn running(pool: Seq<Worker>, actions: spec_fn(int) -> ProjectAction) -> nat
    decreases pool.len(),
{
    if pool.len() == 0 {
        0
    } else {
        running(pool.drop_last(), actions) + (if pool.last().step == WorkerStep::Process && actions(
            pool.len() - 1,
        ).runs_cargo() {
            1nat
        } else {
            0
        })
    }
}

proof fn lemma_at_work(pool: Seq<Worker>, actions: spec_fn(int) -> ProjectAction)
    ensures
        running(pool, actions) <= at_work(pool) <= pool.len(),
    decreases pool.len(),
{
    if pool.len() > 0 {
        lemma_at_work(pool.drop_last(), actions);
    }
}

proof fn lemma_pool_size(events: Seq<PoolEvent>)
    ensures
        pool_after(events).len() == COMPILE_CONCURRENCY,
    decreases events.len(),
{
    if events.len() > 0 {
        lemma_pool_size(events.drop_last());
    }
}

/// The workers are kept apart. At every moment of a run at most ten crates are
/// being processed, and no more cargo commands run than crates are processed: a
/// worker is at one action at a time. No two workers share a cargo home or a
/// target directory, and every command that a worker runs is given that worker's
/// own, so that none falls back on the cargo home of the user.
pub proof fn law_workers_are_kept_apart(
    events: Seq<PoolEvent>,
    actions: spec_fn(int) -> ProjectAction,
    home_base: Seq<char>,
    target_base: Seq<char>,
)
    ensures
        pool_after(events).len() == 10,
        at_work(pool_after(events)) <= 10,
        running(pool_after(events), actions) <= at_work(pool_after(events)),
        forall|i: nat, j: nat|
            i != j ==> #[trigger] home_of(home_base, i) != #[trigger] home_of(home_base, j),
        forall|i: nat, j: nat|
            i != j ==> #[trigger] target_of(target_base, i) != #[trigger] target_of(target_base, j),
        forall|i: nat| #![trigger home_of(home_base, i), target_of(target_base, i)]
            {
                let build = project::build_env(home_of(home_base, i), target_of(target_base, i));
                &&& build.contains(("CARGO_HOME"@, home_of(home_base, i)))
                &&& build.contains(("CARGO_TARGET_DIR"@, target_of(target_base, i)))
                &&& project::update_env(home_of(home_base, i)).contains(
                    ("CARGO_HOME"@, home_of(home_base, i)),
                )
            },
{
    lemma_pool_size(events);
    lemma_at_work(pool_after(events), actions);
    assert forall|i: nat, j: nat| i != j implies #[trigger] home_of(home_base, i)
        != #[trigger] home_of(home_base, j) by {
        if home_of(home_base, i) == home_of(home_base, j) {
            lemma_paths_differ(homes_in(home_base), worker_name(i), worker_name(j));
            law_worker_dirs_differ(i, j);
        }
    }
    assert forall|i: nat, j: nat| i != j implies #[trigger] target_of(target_base, i)
        != #[trigger] target_of(target_base, j) by {
        if target_of(target_base, i) == target_of(target_base, j) {
            lemma_paths_differ(target_base, worker_name(i), worker_name(j));
            law_worker_dirs_differ(i, j);
        }
    }
    assert forall|i: nat| #![trigger home_of(home_base, i), target_of(target_base, i)] {
        let build = project::build_env(home_of(home_base, i), target_of(target_base, i));
        &&& build.contains(("CARGO_HOME"@, home_of(home_base, i)))
        &&& build.contains(("CARGO_TARGET_DIR"@, target_of(target_base, i)))
        &&& project::update_env(home_of(home_base, i)).contains(
            ("CARGO_HOME"@, home_of(home_base, i)),
        )
    } by {
        let home = home_of(home_base, i);
        let target = target_of(target_base, i);
        assert(project::build_env(home, target)[0] == ("CARGO_HOME"@, home));
        assert(project::build_env(home, target)[1] == ("CARGO_TARGET_DIR"@, target));
        assert(project::update_env(home)[0] == ("CARGO_HOME"@, home));
    }
}

/// The caches of a cargo home that a worker clears. The index of the registry is
/// not among them.
pub fn cargo_cache_dirs() -> (dirs: Vec<Vec<&'static str>>)
    ensures
        dirs@.len() == 3,
        dirs@[0]@ == seq!["registry", "cache"],
        dirs@[1]@ == seq!["registry", "src"],
        dirs@[2]@ == seq!["git", "checkouts"],
{
    let mut cache: Vec<&'static str> = Vec::new();
    cache.push("registry");
    cache.push("cache");
    let mut src: Vec<&'static str> = Vec::new();
    src.push("registry");
    src.push("src");
    let mut git: Vec<&'static str> = Vec::new();
    git.push("git");
    git.push("checkouts");
    let mut dirs: Vec<Vec<&'static str>> = Vec::new();
    dirs.push(cache);
    dirs.push(src);
    dirs.push(git);
    dirs
}

/// A crate and an event say what they hold.
pub proof fn law_item_and_event_say_what_they_hold(
    item: CompileItem,
    items: Seq<CompileItem>,
    event: ProducerEvent,
    i: int,
)
    requires
        0 <= i < items.len(),
    ensures
        item@.id == item.id,
        item@.name == item.name@,
        item@.version_new == item.version_new@,
        item_views(items).len() == items.len(),
        item_views(items)[i].id == items[i].id,
        item_views(items)[i].name == items[i].name@,
        item_views(items)[i].version_new == items[i].version_new@,
        event matches ProducerEvent::Page(page) ==> event@ == ProducerEventView::Page(
            item_views(page@),
        ),
        event is PageFailed <==> event@ is PageFailed,
        event is Sent <==> event@ is Sent,
        event is Closed <==> event@ is Closed,
{
}

/// Where the producer ends. It has finished after an empty page, or when no
/// worker takes the crate at hand; it has failed where a page could not be read;
/// and it then stays as it is. Before that it asks for a page exactly when it has
/// handed out all it had.
pub proof fn law_producer_ends(producer: ProducerView, event: ProducerEventView)
    requires
        producer.sound(),
        producer.step == ProducerStep::Fetch ==> producer.page.len() == 0,
    ensures
        ({
            let after = producer.after(event);
            let fetching = producer.step == ProducerStep::Fetch;
            let sending = producer.step == ProducerStep::Send;
            &&& after.sound()
            &&& after.step == ProducerStep::Fetch ==> after.page.len() == 0
            &&& after.step == ProducerStep::Send ==> after.page.len() > 0
            &&& fetching || sending ==> {
                &&& after.step == ProducerStep::Finished <==> (fetching && (event matches ProducerEventView::Page(
                    page,
                ) && page.len() == 0)) || (sending && event is Closed)
                &&& after.step == ProducerStep::Failed <==> fetching && event is PageFailed
            }
            &&& fetching ==> after.after_id == producer.after_id
            &&& fetching && !(event is Page) && !(event is PageFailed) ==> after == producer
            &&& sending && !(event is Sent) && !(event is Closed) ==> after == producer
            &&& !fetching && !sending ==> after == producer
        }),
        ProducerView::first().step == ProducerStep::Fetch,
        ProducerView::first().after_id == 0,
        ProducerView::first().page.len() == 0,
{
}

/// The turn of a worker. A crate that it took is run, the target directory is
/// cleared, and the crate is marked, however each of these went; then the worker
/// waits for the next one. Where no crate comes any more it clears its cargo home
/// and is finished.
pub proof fn law_turn_of_a_worker(handled: u64, reply: Reply)
    requires
        handled < u64::MAX,
    ensures
        ({
            let waiting = Worker { step: WorkerStep::Receive, handled };
            let taken = waiting.after(Reply::Yes);
            let marking = taken.after(reply).after(reply);
            let marked = marking.after(reply);
            let ready = if marked.step == WorkerStep::CleanHome {
                marked.after(reply)
            } else {
                marked
            };
            &&& taken.step == WorkerStep::Process && taken.handled == handled
            &&& marking.step == WorkerStep::MarkHandled && marking.handled == handled
            &&& marked.handled == handled + 1
            &&& ready.step == WorkerStep::Receive && ready.handled == handled + 1
            &&& reply != Reply::Yes ==> {
                &&& waiting.after(reply).step == WorkerStep::CleanHomeAtEnd
                &&& waiting.after(reply).after(reply).step == WorkerStep::Finished
                &&& waiting.after(reply).after(reply).after(reply)
                    == waiting.after(reply).after(reply)
            }
        }),
{
}

/// A worker's directory is named by its number, written with two digits or more
/// and with no more zeros in front than that takes.
pub proof fn law_worker_number_is_padded(n: nat)
    ensures
        worker_name(n) == "worker_"@ + two_digits(n),
        text::number(two_digits(n)) == n,
        text::all_digits(two_digits(n)),
        two_digits(n).len() >= 2,
        two_digits(n)[0] == '0' ==> two_digits(n).len() == 2,
{
    lemma_two_digits(n);
    text::law_decimal_reads_back(n);
    text::law_decimal_has_no_leading_zero(n);
    assert forall|i: int| 0 <= i < two_digits(n).len() implies text::is_digit(
        #[trigger] two_digits(n)[i],
    ) by {
        if n < 10 {
            if i > 0 {
                assert(two_digits(n)[i] == text::decimal(n)[i - 1]);
            }
        } else {
            assert(two_digits(n)[i] == text::decimal(n)[i]);
        }
    }
}

/// The path of a name in a directory begins with the directory and ends with the
/// name; one slash stands between them, whether or not the directory was written
/// with a slash at its end.
pub proof fn law_path_in_a_directory(dir: Seq<char>, name: Seq<char>)
    requires
        dir.len() > 0,
        dir.last() != '/',
    ensures
        path_in(dir, name) == path_in(dir.push('/'), name),
        path_in(dir, name).len() == dir.len() + 1 + name.len(),
        path_in(dir, name).take(dir.len() as int) == dir,
        path_in(dir, name)[dir.len() as int] == '/',
        path_in(dir, name).skip(dir.len() as int + 1) == name,
        path_in(Seq::empty(), name) == name,
{
    assert(path_in(dir, name).take(dir.len() as int) =~= dir);
    assert(path_in(dir, name).skip(dir.len() as int + 1) =~= name);
    assert(path_in(Seq::empty(), name) =~= name);
}

/// Where the directories of a worker stand: the target directory right under its
/// base, the cargo home one directory deeper.
pub proof fn law_worker_directories(base: Seq<char>, worker_id: nat)
    requires
        base.len() > 0,
        base.last() != '/',
    ensures
        target_of(base, worker_id) == base + "/worker_"@ + two_digits(worker_id),
        home_of(base, worker_id) == base + "/cratesio-experiment/worker_"@ + two_digits(worker_id),
        homes_in(base) == base + "/cratesio-experiment"@,
{
    reveal_strlit("worker_");
    reveal_strlit("/worker_");
    reveal_strlit("cratesio-experiment");
    reveal_strlit("/cratesio-experiment");
    reveal_strlit("/cratesio-experiment/worker_");
    assert(target_of(base, worker_id) =~= base + "/worker_"@ + two_digits(worker_id));
    assert(homes_in(base) =~= base + "/cratesio-experiment"@);
    assert(homes_in(base).last() == 't');
    assert(home_of(base, worker_id) =~= base + "/cratesio-experiment/worker_"@ + two_digits(
        worker_id,
    ));
}

} // verus!
