//! The batch that reads every crate's versions from the index and stores them.

use vstd::prelude::*;
use vstd::string::*;
use crate::index::{self, ParsedCrateVersionRow};
use crate::json::Json;
use crate::text;
use crate::times::Timestamp;

verus! {

/// How many crates are started together.
pub const VERSION_HANDLE_GROUP_SIZE: usize = 1000;

/// How many crates of a group are worked on at the same time.
pub const HANDLE_VERSION_CONCURRENCY: usize = 16;

/// How often a crate is tried.
pub const HANDLE_VERSION_MAX_RETRIES: u32 = 3;

/// How long one attempt may take, in seconds.
pub const HANDLE_VERSION_TIMEOUT_SECS: u64 = 120;

/// A version of a crate, as the database stores it.
#[derive(Debug)]
pub struct CrateVersionIndexRow {
    pub crate_id: i32,
    pub version: String,
    pub deps: Json,
    pub features2: Option<Json>,
    pub pubtime: Option<Timestamp>,
}

/// What a [`CrateVersionIndexRow`] says.
pub struct StoredView {
    pub crate_id: i32,
    pub row: index::RowView,
}

impl View for CrateVersionIndexRow {
    type V = StoredView;

    open spec fn view(&self) -> StoredView {
        StoredView {
            crate_id: self.crate_id,
            row: index::RowView {
                version: self.version@,
                deps: self.deps@,
                features2: index::option_view(self.features2),
                pubtime: self.pubtime,
            },
        }
    }
}

/// The views of a list of stored versions, in order.
pub open spec fn stored_views(rows: Seq<CrateVersionIndexRow>) -> Seq<StoredView> {
    rows.map_values(|row: CrateVersionIndexRow| row@)
}

/// The rows of one crate.
pub open spec fn rows_of(crate_id: i32, rows: Seq<index::RowView>) -> Seq<StoredView> {
    rows.map_values(|row: index::RowView| StoredView { crate_id, row })
}

/// What is stored for the crate `crate_id`: each row of its index file, in order.
pub fn crate_version_rows(crate_id: i32, rows: Vec<ParsedCrateVersionRow>) -> (out: Vec<
    CrateVersionIndexRow,
>)
    ensures
        stored_views(out@) == rows_of(crate_id, index::row_views(rows@)),
        out@.len() == rows@.len(),
        forall|i: int|
            0 <= i < rows@.len() ==> {
                &&& (#[trigger] out@[i]).crate_id == crate_id
                &&& out@[i].version@ == rows@[i].version@
                &&& out@[i].deps@ == rows@[i].deps@
                &&& index::option_view(out@[i].features2) == index::option_view(rows@[i].features2)
                &&& out@[i].pubtime == rows@[i].pubtime
            },
{
    let ghost all = rows@;
    let mut out: Vec<CrateVersionIndexRow> = Vec::new();
    for row in it: rows
        invariant
            it.seq() == all,
            stored_views(out@) == rows_of(crate_id, index::row_views(all)).take(it.index()),
    {
        let ghost before = out@;
        let ParsedCrateVersionRow { version, deps, features2, pubtime } = row;
        out.push(CrateVersionIndexRow { crate_id, version, deps, features2, pubtime });
        assert(stored_views(out@) =~= stored_views(before).push(out@.last()@));
    }
    assert(stored_views(out@) =~= rows_of(crate_id, index::row_views(all)));
    proof {
        law_stored_rows_are_the_parsed_ones(crate_id, all, out@);
    }
    out
}

/// How the work on a crate ended.
#[derive(Debug, Clone, Copy, PartialEq, Eq, Structural)]
pub enum VersionOutcome {
    /// So many versions were stored.
    Upserted(u64),
    /// The last attempt failed.
    Failed,
    /// The last attempt took too long.
    TimedOut,
    /// The crate never got a permit.
    NoPermit,
}

impl VersionOutcome {
    /// The error that the outcome stands for; a failed attempt has an error of
    /// its own.
    pub open spec fn error(self) -> Option<Seq<char>> {
        match self {
            VersionOutcome::TimedOut => Some(
                "handle crate timeout after "@ + text::decimal(HANDLE_VERSION_TIMEOUT_SECS as nat)
                    + "s"@,
            ),
            VersionOutcome::NoPermit => Some("failed to acquire semaphore permit"@),
            _ => None,
        }
    }

    /// The message of the error.
    pub fn message(&self) -> (message: Option<String>)
        ensures
            match message {
                Some(m) => self.error() == Some(m@),
                None => self.error() is None,
            },
    {
        match self {
            VersionOutcome::TimedOut => {
                let secs = text::decimal_text(HANDLE_VERSION_TIMEOUT_SECS);
                Some("handle crate timeout after ".to_owned().concat(secs.as_str()).concat("s"))
            },
            VersionOutcome::NoPermit => Some("failed to acquire semaphore permit".to_owned()),
            _ => None,
        }
    }
}

/// What is done for a crate.
#[derive(Debug, Clone, Copy, PartialEq, Eq, Structural)]
pub enum VersionStep {
    /// Wait for a permit.
    Acquire,
    /// Read the index file and store its rows, for the so-manieth time.
    Attempt(u32),
    /// Wait so many milliseconds before the next attempt.
    Wait { next: u32, millis: u64 },
    /// Give the permit back and store that the crate was handled.
    Mark(VersionOutcome),
    Finished(VersionOutcome),
}

/// What comes back from a step.
#[derive(Debug, Clone, Copy, PartialEq, Eq, Structural)]
pub enum VersionEvent {
    /// The permit was granted, or the wait is over, or the mark was tried.
    Ready,
    /// There are no permits any more.
    Refused,
    /// So many rows were stored.
    Upserted(u64),
    Failed,
    TimedOut,
}

/// How long to wait after a failed attempt, in milliseconds.
pub open spec fn backoff(attempt: int) -> u64 {
    if attempt == 1 {
        200
    } else if attempt == 2 {
        500
    } else {
        1000
    }
}

/// How long to wait after a failed attempt, in milliseconds.
pub fn backoff_ms(attempt: u32) -> (millis: u64)
    requires
        attempt >= 1,
    ensures
        millis == backoff(attempt as int),
{
    let backoffs: [u64; 3] = [200, 500, 1000];
    let at: u32 = attempt - 1;
    if at < 3 {
        backoffs[at as usize]
    } else {
        1000
    }
}

impl VersionStep {
    pub open spec fn first() -> VersionStep {
        VersionStep::Acquire
    }

    /// What follows an attempt that failed: a wait and another attempt, or the
    /// end.
    pub open spec fn again(attempt: u32, outcome: VersionOutcome) -> VersionStep {
        if attempt >= HANDLE_VERSION_MAX_RETRIES {
            VersionStep::Mark(outcome)
        } else {
            VersionStep::Wait { next: (attempt + 1) as u32, millis: backoff(attempt as int) }
        }
    }

    /// What follows an event. An event that does not answer the step changes
    /// nothing.
    pub open spec fn after(self, event: VersionEvent) -> VersionStep {
        match (self, event) {
            (VersionStep::Acquire, VersionEvent::Ready) => VersionStep::Attempt(1),
            (VersionStep::Acquire, VersionEvent::Refused) => VersionStep::Finished(
                VersionOutcome::NoPermit,
            ),
            (VersionStep::Attempt(_), VersionEvent::Upserted(rows)) => VersionStep::Mark(
                VersionOutcome::Upserted(rows),
            ),
            (VersionStep::Attempt(attempt), VersionEvent::Failed) => VersionStep::again(
                attempt,
                VersionOutcome::Failed,
            ),
            (VersionStep::Attempt(attempt), VersionEvent::TimedOut) => VersionStep::again(
                attempt,
                VersionOutcome::TimedOut,
            ),
            (VersionStep::Wait { next, .. }, VersionEvent::Ready) => VersionStep::Attempt(next),
            (VersionStep::Mark(outcome), VersionEvent::Ready) => VersionStep::Finished(outcome),
            _ => self,
        }
    }

    pub fn start() -> (step: VersionStep)
        ensures
            step == VersionStep::first(),
    {
        VersionStep::Acquire
    }

    fn retry(attempt: u32, outcome: VersionOutcome) -> (step: VersionStep)
        requires
            attempt >= 1,
        ensures
            step == VersionStep::again(attempt, outcome),
    {
        if attempt >= HANDLE_VERSION_MAX_RETRIES {
            VersionStep::Mark(outcome)
        } else {
            VersionStep::Wait { next: attempt + 1, millis: backoff_ms(attempt) }
        }
    }

    /// Whether attempts are counted from one.
    pub open spec fn sound(self) -> bool {
        match self {
            VersionStep::Attempt(attempt) => 1 <= attempt <= HANDLE_VERSION_MAX_RETRIES,
            VersionStep::Wait { next, .. } => 1 < next <= HANDLE_VERSION_MAX_RETRIES,
            _ => true,
        }
    }

    /// Takes what came back from the step.
    pub fn next(&self, event: VersionEvent) -> (step: VersionStep)
        requires
            self.sound(),
        ensures
            step == self.after(event),
            step.sound(),
    {
        match (*self, event) {
            (VersionStep::Acquire, VersionEvent::Ready) => VersionStep::Attempt(1),
            (VersionStep::Acquire, VersionEvent::Refused) => VersionStep::Finished(
                VersionOutcome::NoPermit,
            ),
            (VersionStep::Attempt(_), VersionEvent::Upserted(rows)) => VersionStep::Mark(
                VersionOutcome::Upserted(rows),
            ),
            (VersionStep::Attempt(attempt), VersionEvent::Failed) => VersionStep::retry(
                attempt,
                VersionOutcome::Failed,
            ),
            (VersionStep::Attempt(attempt), VersionEvent::TimedOut) => VersionStep::retry(
                attempt,
                VersionOutcome::TimedOut,
            ),
            (VersionStep::Wait { next, millis: _ }, VersionEvent::Ready) => VersionStep::Attempt(
                next,
            ),
            (VersionStep::Mark(outcome), VersionEvent::Ready) => VersionStep::Finished(outcome),
            (step, _) => step,
        }
    }
}

/// What an attempt gives.
pub enum Tried {
    Upserted(u64),
    Failed,
    TimedOut,
}

/// What happens to a crate: whether it gets a permit, and what each attempt
/// gives.
pub struct Answers {
    pub permit: bool,
    pub attempts: spec_fn(u32) -> Tried,
}

impl Answers {
    pub open spec fn to(self, step: VersionStep) -> VersionEvent {
        match step {
            VersionStep::Acquire => if self.permit {
                VersionEvent::Ready
            } else {
                VersionEvent::Refused
            },
            VersionStep::Attempt(attempt) => match (self.attempts)(attempt) {
                Tried::Upserted(rows) => VersionEvent::Upserted(rows),
                Tried::Failed => VersionEvent::Failed,
                Tried::TimedOut => VersionEvent::TimedOut,
            },
            _ => VersionEvent::Ready,
        }
    }
}

/// Where a crate gets in so many steps.
pub open spec fn driven(step: VersionStep, answers: Answers, steps: nat) -> VersionStep
    decreases steps,
{
    if steps == 0 {
        step
    } else {
        driven(step.after(answers.to(step)), answers, (steps - 1) as nat)
    }
}

/// How the attempts from the so-manieth on end: with the first that succeeds,
/// else as the last one ends.
pub open spec fn outcome(answers: Answers, attempt: u32) -> VersionOutcome
    decreases HANDLE_VERSION_MAX_RETRIES - attempt,
{
    match (answers.attempts)(attempt) {
        Tried::Upserted(rows) => VersionOutcome::Upserted(rows),
        Tried::Failed => if attempt >= HANDLE_VERSION_MAX_RETRIES {
            VersionOutcome::Failed
        } else {
            outcome(answers, (attempt + 1) as u32)
        },
        Tried::TimedOut => if attempt >= HANDLE_VERSION_MAX_RETRIES {
            VersionOutcome::TimedOut
        } else {
            outcome(answers, (attempt + 1) as u32)
        },
    }
}

/// A crate is done within eight steps. Without a permit nothing is tried; with
/// one the first attempt that succeeds counts, and after three failed ones the
/// way the third failed.
pub proof fn law_version_outcome(answers: Answers)
    ensures
        driven(VersionStep::first(), answers, 8) == VersionStep::Finished(
            if answers.permit {
                outcome(answers, 1)
            } else {
                VersionOutcome::NoPermit
            },
        ),
{
    reveal_with_fuel(driven, 9);
    reveal_with_fuel(outcome, 3);
    let step = VersionStep::first().after(answers.to(VersionStep::first()));
    if answers.permit {
        let second = VersionStep::Attempt(2);
        let third = VersionStep::Attempt(3);
        assert(step == VersionStep::Attempt(1));
        assert(outcome(answers, 3) == match (answers.attempts)(3) {
            Tried::Upserted(rows) => VersionOutcome::Upserted(rows),
            Tried::Failed => VersionOutcome::Failed,
            Tried::TimedOut => VersionOutcome::TimedOut,
        });
        assert(driven(third, answers, 3) == VersionStep::Finished(outcome(answers, 3)));
        assert(driven(second, answers, 5) == VersionStep::Finished(outcome(answers, 2)));
        assert(driven(step, answers, 7) == VersionStep::Finished(outcome(answers, 1)));
    }
}

/// A crate that got a permit is marked as handled before it is done, however its
/// attempts went; and no wait follows the last attempt.
pub proof fn law_handled_crate_is_marked(step: VersionStep, event: VersionEvent)
    requires
        step.sound(),
    ensures
        step.after(event) is Finished && !(step is Finished) ==> step is Mark || (step is Acquire
            && event == VersionEvent::Refused),
        step == VersionStep::Attempt(HANDLE_VERSION_MAX_RETRIES) && event != VersionEvent::Ready
            && event != VersionEvent::Refused ==> step.after(event) is Mark,
{
}

/// What came of a crate's task.
#[derive(Debug, Clone, Copy, PartialEq, Eq, Structural)]
pub enum TaskResult {
    Ended(VersionOutcome),
    Panicked,
}

impl TaskResult {
    pub open spec fn is_success(self) -> bool {
        self matches TaskResult::Ended(VersionOutcome::Upserted(_))
    }

    /// How many rows the task stored.
    pub open spec fn rows(self) -> nat {
        match self {
            TaskResult::Ended(VersionOutcome::Upserted(rows)) => rows as nat,
            _ => 0,
        }
    }
}

/// The counts of a batch.
#[derive(Debug, Clone, Copy, PartialEq, Eq, Structural)]
pub struct VersionTally {
    pub success_count: u64,
    pub failed_count: u64,
    pub total_upserted: u64,
}

impl VersionTally {
    pub fn new() -> (tally: VersionTally)
        ensures
            tally.counts(Seq::empty()),
    {
        VersionTally { success_count: 0, failed_count: 0, total_upserted: 0 }
    }

    /// Whether these are the counts of the given results.
    pub open spec fn counts(self, results: Seq<TaskResult>) -> bool {
        &&& self.success_count == successes(results)
        &&& self.failed_count == results.len() - successes(results)
        &&& self.total_upserted == upserted(results)
    }

    /// Counts one more result.
    pub fn count(&mut self, result: TaskResult)
        requires
            old(self).success_count < u64::MAX,
            old(self).failed_count < u64::MAX,
            old(self).total_upserted + result.rows() <= u64::MAX,
        ensures
            forall|results: Seq<TaskResult>| #[trigger]
                old(self).counts(results) ==> final(self).counts(results.push(result)),
            final(self).success_count == old(self).success_count + (if result.is_success() {
                1int
            } else {
                0
            }),
            final(self).failed_count == old(self).failed_count + (if result.is_success() {
                0int
            } else {
                1
            }),
            final(self).total_upserted == old(self).total_upserted + result.rows(),
    {
        match result {
            TaskResult::Ended(VersionOutcome::Upserted(rows)) => {
                self.success_count += 1;
                self.total_upserted += rows;
            },
            _ => {
                self.failed_count += 1;
            },
        }
        proof {
            assert forall|results: Seq<TaskResult>| #[trigger]
                old(self).counts(results) implies self.counts(results.push(result)) by {
                assert(results.push(result).drop_last() =~= results);
            }
        }
    }
}

/// How many of the results are successes.
pub open spec fn successes(results: Seq<TaskResult>) -> nat
    decreases results.len(),
{
    if results.len() == 0 {
        0
    } else {
        successes(results.drop_last()) + (if results.last().is_success() {
            1nat
        } else {
            0
        })
    }
}

/// How many rows the tasks stored.
pub open spec fn upserted(results: Seq<TaskResult>) -> nat
    decreases results.len(),
{
    if results.len() == 0 {
        0
    } else {
        upserted(results.drop_last()) + results.last().rows()
    }
}

/// The crates `from..to` of the batch, which are started together.
#[derive(Debug, Clone, Copy, PartialEq, Eq, Structural)]
pub struct VersionGroup {
    pub group_no: u64,
    pub from: usize,
    pub to: usize,
}

/// Whether `group` is the group after `k` others of a batch of `n` crates.
pub open spec fn is_group(group: VersionGroup, k: int, n: int) -> bool {
    &&& group.group_no == k + 1
    &&& group.from == k * VERSION_HANDLE_GROUP_SIZE
    &&& group.from < n
    &&& group.to == if (k + 1) * VERSION_HANDLE_GROUP_SIZE <= n {
        (k + 1) * VERSION_HANDLE_GROUP_SIZE
    } else {
        n
    }
}

/// The groups of a batch of `n` crates.
pub fn version_groups(n: usize) -> (groups: Vec<VersionGroup>)
    ensures
        forall|k: int|
            0 <= k < groups@.len() ==> is_group(#[trigger] groups@[k], k, n as int),
        n <= groups@.len() * VERSION_HANDLE_GROUP_SIZE < n + VERSION_HANDLE_GROUP_SIZE,
{
    let mut groups: Vec<VersionGroup> = Vec::new();
    let mut from: usize = 0;
    while from < n
        invariant
            forall|k: int|
                0 <= k < groups@.len() ==> is_group(#[trigger] groups@[k], k, n as int),
            from == if groups@.len() * VERSION_HANDLE_GROUP_SIZE <= n {
                groups@.len() * VERSION_HANDLE_GROUP_SIZE
            } else {
                n as int
            },
            from <= n,
            groups@.len() * VERSION_HANDLE_GROUP_SIZE < n + VERSION_HANDLE_GROUP_SIZE,
        decreases n - from,
    {
        let to: usize = if n - from > VERSION_HANDLE_GROUP_SIZE {
            from + VERSION_HANDLE_GROUP_SIZE
        } else {
            n
        };
        let group_no: u64 = groups.len() as u64 + 1;
        groups.push(VersionGroup { group_no, from, to });
        from = to;
    }
    groups
}

/// Every crate of a batch is in exactly one group.
pub proof fn law_groups_cover(groups: Seq<VersionGroup>, n: int, i: int)
    requires
        forall|k: int| 0 <= k < groups.len() ==> is_group(#[trigger] groups[k], k, n),
        n <= groups.len() * VERSION_HANDLE_GROUP_SIZE,
        0 <= i < n,
    ensures
        exists|k: int|
            0 <= k < groups.len() && (#[trigger] groups[k]).from <= i < groups[k].to,
        forall|k: int, l: int|
            0 <= k < groups.len() && 0 <= l < groups.len() && (#[trigger] groups[k]).from <= i
                < groups[k].to && (#[trigger] groups[l]).from <= i < groups[l].to ==> k == l,
{
    let k = i / (VERSION_HANDLE_GROUP_SIZE as int);
    assert(0 <= k < groups.len());
    assert(groups[k].from <= i < groups[k].to);
}

/// What is stored for a crate are the rows of its index file, one for one: each
/// carries the id of the crate and, unchanged, the version, the dependencies, the
/// extra features and the time of the row in its place.
pub proof fn law_stored_rows_are_the_parsed_ones(
    crate_id: i32,
    rows: Seq<ParsedCrateVersionRow>,
    out: Seq<CrateVersionIndexRow>,
)
    requires
        stored_views(out) == rows_of(crate_id, index::row_views(rows)),
    ensures
        out.len() == rows.len(),
        forall|i: int|
            0 <= i < rows.len() ==> {
                &&& (#[trigger] out[i]).crate_id == crate_id
                &&& out[i].version@ == rows[i].version@
                &&& out[i].deps@ == rows[i].deps@
                &&& out[i].features2 is Some <==> rows[i].features2 is Some
                &&& out[i].features2 is Some ==> out[i].features2->0@ == rows[i].features2->0@
                &&& index::option_view(out[i].features2) == index::option_view(rows[i].features2)
                &&& out[i].pubtime == rows[i].pubtime
            },
{
    assert(stored_views(out).len() == out.len());
    assert(rows_of(crate_id, index::row_views(rows)).len() == rows.len());
    assert forall|i: int| 0 <= i < rows.len() implies ({
        &&& (#[trigger] out[i]).crate_id == crate_id
        &&& out[i].version@ == rows[i].version@
        &&& out[i].deps@ == rows[i].deps@
        &&& out[i].features2 is Some <==> rows[i].features2 is Some
        &&& out[i].features2 is Some ==> out[i].features2->0@ == rows[i].features2->0@
        &&& index::option_view(out[i].features2) == index::option_view(rows[i].features2)
        &&& out[i].pubtime == rows[i].pubtime
    }) by {
        assert(stored_views(out)[i] == out[i]@);
        assert(rows_of(crate_id, index::row_views(rows))[i].row == rows[i]@);
        assert(out[i]@.row == rows[i]@);
        assert(out[i]@.crate_id == crate_id);
    }
}

/// A stored version says what its fields hold.
pub proof fn law_stored_version_says_its_fields(row: CrateVersionIndexRow)
    ensures
        row@.crate_id == row.crate_id,
        row@.row.version == row.version@,
        row@.row.deps == row.deps@,
        row.features2 matches Some(doc) ==> row@.row.features2 == Some(doc@),
        row.features2 is None ==> row@.row.features2 is None,
        row@.row.pubtime == row.pubtime,
{
}

/// How an attempt leads on. Success ends the attempts with the number of rows
/// that were stored. A failure is followed by a longer wait each time and then by
/// the next attempt, and the third ends the attempts as it failed.
pub proof fn law_attempts_lead_on(attempt: u32, rows: u64, millis: u64, outcome: VersionOutcome)
    requires
        1 <= attempt <= 3,
    ensures
        VersionStep::Attempt(attempt).after(VersionEvent::Upserted(rows)) == VersionStep::Mark(
            VersionOutcome::Upserted(rows),
        ),
        attempt < 3 ==> ({
            let wait = VersionStep::Attempt(attempt).after(VersionEvent::Failed);
            &&& wait == VersionStep::Attempt(attempt).after(VersionEvent::TimedOut)
            &&& wait is Wait
            &&& wait->next == attempt + 1
            &&& attempt == 1 ==> wait->millis == 200
            &&& attempt == 2 ==> wait->millis == 500
            &&& wait.after(VersionEvent::Ready) == VersionStep::Attempt((attempt + 1) as u32)
        }),
        VersionStep::Attempt(3).after(VersionEvent::Failed) == VersionStep::Mark(
            VersionOutcome::Failed,
        ),
        VersionStep::Attempt(3).after(VersionEvent::TimedOut) == VersionStep::Mark(
            VersionOutcome::TimedOut,
        ),
        (VersionStep::Wait { next: attempt, millis }).after(VersionEvent::Ready)
            == VersionStep::Attempt(attempt),
        VersionStep::Mark(outcome).after(VersionEvent::Ready) == VersionStep::Finished(outcome),
        VersionStep::Acquire.after(VersionEvent::Ready) == VersionStep::Attempt(1),
        VersionStep::Acquire.after(VersionEvent::Refused) == VersionStep::Finished(
            VersionOutcome::NoPermit,
        ),
        VersionStep::first() == VersionStep::Acquire,
{
}

/// The waits grow up to a second and then stay there.
pub proof fn law_waits_grow_to_a_second(a: int, b: int)
    requires
        1 <= a <= b,
    ensures
        200 <= backoff(a) <= backoff(b) <= 1000,
        a < b && b <= 3 ==> backoff(a) < backoff(b),
        a >= 3 ==> backoff(a) == 1000,
{
}

/// An event that does not answer the step at hand changes nothing: only a permit
/// can be refused, only an attempt can store rows, fail or take too long, and
/// what has ended stays as it is.
pub proof fn law_only_answers_count(step: VersionStep, event: VersionEvent)
    requires
        ({
            let tried = event is Upserted || event is Failed || event is TimedOut;
            ||| step is Finished
            ||| step is Attempt && !tried
            ||| step is Acquire && tried
            ||| (step is Wait || step is Mark) && !(event is Ready)
        }),
    ensures
        step.after(event) == step,
{
}

/// A task counts as a success exactly where it ended with stored rows, however
/// many, and then adds these; every result is counted once.
pub proof fn law_results_are_counted(results: Seq<TaskResult>, result: TaskResult, rows: u64)
    ensures
        successes(results) <= results.len(),
        (result matches TaskResult::Ended(VersionOutcome::Upserted(_))) ==> successes(
            results.push(result),
        ) == successes(results) + 1,
        !(result matches TaskResult::Ended(VersionOutcome::Upserted(_))) ==> successes(
            results.push(result),
        ) == successes(results),
        upserted(results.push(TaskResult::Ended(VersionOutcome::Upserted(rows)))) == upserted(results)
            + rows,
        !(result matches TaskResult::Ended(VersionOutcome::Upserted(_))) ==> upserted(
            results.push(result),
        ) == upserted(results),
    decreases results.len(),
{
    assert(results.push(result).drop_last() =~= results);
    let more = TaskResult::Ended(VersionOutcome::Upserted(rows));
    assert(results.push(more).drop_last() =~= results);
    if results.len() > 0 {
        law_results_are_counted(results.drop_last(), result, rows);
    }
}

/// The groups follow one another without a gap, are numbered from one, and hold
/// a thousand crates each, the last one possibly fewer.
pub proof fn law_groups_follow_one_another(groups: Seq<VersionGroup>, n: int, k: int)
    requires
        forall|k: int| 0 <= k < groups.len() ==> is_group(#[trigger] groups[k], k, n),
        n <= groups.len() * VERSION_HANDLE_GROUP_SIZE,
        0 <= k < groups.len(),
    ensures
        groups[0].from == 0,
        groups[groups.len() - 1].to == n,
        groups[k].group_no == k + 1,
        groups[k].from < groups[k].to <= groups[k].from + 1000,
        k + 1 < groups.len() ==> groups[k].to == groups[k].from + 1000 && groups[k + 1].from
            == groups[k].to,
{
    assert(is_group(groups[0], 0, n));
    assert(is_group(groups[groups.len() - 1], groups.len() - 1, n));
    if k + 1 < groups.len() {
        assert(is_group(groups[k + 1], k + 1, n));
    }
}

/// What is reported of an outcome: the time that an attempt had, or that there
/// was no permit. Rows that were stored are no error.
pub proof fn law_reported_errors(rows: u64)
    ensures
        VersionOutcome::TimedOut.error() == Some(
            "handle crate timeout after "@ + text::decimal(120) + "s"@,
        ),
        VersionOutcome::NoPermit.error() == Some("failed to acquire semaphore permit"@),
        VersionOutcome::Upserted(rows).error() is None,
        VersionOutcome::Failed.error() is None,
{
}

} // verus!
