use crates_io::index::parse_index_version_line;
use crates_io::version_batch::{
    backoff_ms, crate_version_rows, version_groups, TaskResult, VersionEvent, VersionGroup,
    VersionOutcome, VersionStep, VersionTally, HANDLE_VERSION_CONCURRENCY,
    HANDLE_VERSION_MAX_RETRIES, HANDLE_VERSION_TIMEOUT_SECS, VERSION_HANDLE_GROUP_SIZE,
};

fn run(events: &[VersionEvent]) -> Vec<VersionStep> {
    let mut steps = vec![VersionStep::start()];
    for event in events {
        let next = steps[steps.len() - 1].next(*event);
        steps.push(next);
    }
    steps
}

#[test]
fn limits_of_the_batch() {
    assert_eq!(VERSION_HANDLE_GROUP_SIZE, 1000);
    assert_eq!(HANDLE_VERSION_CONCURRENCY, 16);
    assert_eq!(HANDLE_VERSION_MAX_RETRIES, 3);
    assert_eq!(HANDLE_VERSION_TIMEOUT_SECS, 120);
}

#[test]
fn rows_get_the_id_of_their_crate() {
    let row = |line: &str| parse_index_version_line(line).unwrap().unwrap();
    let rows = crate_version_rows(
        7,
        vec![row(r#"{"vers":"1.0.0","features2":{}}"#), row(r#"{"vers":"2.0.0"}"#)],
    );
    assert_eq!(rows.len(), 2);
    assert_eq!(rows[0].crate_id, 7);
    assert_eq!(rows[0].version, "1.0.0");
    assert!(rows[0].features2.is_some());
    assert_eq!(rows[1].crate_id, 7);
    assert_eq!(rows[1].version, "2.0.0");
    assert!(rows[1].features2.is_none());
}

#[test]
fn first_success_ends_the_attempts() {
    let steps = run(&[
        VersionEvent::Ready,
        VersionEvent::Failed,
        VersionEvent::Ready,
        VersionEvent::Upserted(4),
        VersionEvent::Ready,
    ]);
    assert_eq!(steps[1], VersionStep::Attempt(1));
    assert_eq!(steps[2], VersionStep::Wait { next: 2, millis: 200 });
    assert_eq!(steps[3], VersionStep::Attempt(2));
    assert_eq!(steps[4], VersionStep::Mark(VersionOutcome::Upserted(4)));
    assert_eq!(steps[5], VersionStep::Finished(VersionOutcome::Upserted(4)));
}

#[test]
fn third_failure_ends_the_attempts_and_the_crate_is_still_marked() {
    let steps = run(&[
        VersionEvent::Ready,
        VersionEvent::Failed,
        VersionEvent::Ready,
        VersionEvent::Failed,
        VersionEvent::Ready,
        VersionEvent::TimedOut,
        VersionEvent::Ready,
        VersionEvent::Ready,
    ]);
    assert_eq!(steps[4], VersionStep::Wait { next: 3, millis: 500 });
    assert_eq!(steps[6], VersionStep::Mark(VersionOutcome::TimedOut));
    assert_eq!(steps[8], VersionStep::Finished(VersionOutcome::TimedOut));
}

#[test]
fn crate_without_a_permit_is_not_tried() {
    let steps = run(&[VersionEvent::Refused]);
    assert_eq!(steps[1], VersionStep::Finished(VersionOutcome::NoPermit));
}

#[test]
fn event_that_answers_nothing_changes_nothing() {
    assert_eq!(VersionStep::Acquire.next(VersionEvent::Failed), VersionStep::Acquire);
    assert_eq!(VersionStep::Attempt(2).next(VersionEvent::Ready), VersionStep::Attempt(2));
}

#[test]
fn waits_grow() {
    assert_eq!(backoff_ms(1), 200);
    assert_eq!(backoff_ms(2), 500);
    assert_eq!(backoff_ms(3), 1000);
    assert_eq!(backoff_ms(9), 1000);
}

#[test]
fn outcomes_have_messages() {
    assert_eq!(
        VersionOutcome::TimedOut.message().as_deref(),
        Some("handle crate timeout after 120s")
    );
    assert_eq!(
        VersionOutcome::NoPermit.message().as_deref(),
        Some("failed to acquire semaphore permit")
    );
    assert_eq!(VersionOutcome::Failed.message(), None);
    assert_eq!(VersionOutcome::Upserted(1).message(), None);
}

#[test]
fn results_are_counted() {
    let mut tally = VersionTally::new();
    for result in [
        TaskResult::Ended(VersionOutcome::Upserted(3)),
        TaskResult::Ended(VersionOutcome::Upserted(0)),
        TaskResult::Ended(VersionOutcome::Failed),
        TaskResult::Ended(VersionOutcome::TimedOut),
        TaskResult::Ended(VersionOutcome::NoPermit),
        TaskResult::Panicked,
    ] {
        tally.count(result);
    }
    assert_eq!(
        tally,
        VersionTally { success_count: 2, failed_count: 4, total_upserted: 3 }
    );
}

#[test]
fn crates_are_grouped() {
    assert!(version_groups(0).is_empty());
    assert_eq!(version_groups(1000), vec![VersionGroup { group_no: 1, from: 0, to: 1000 }]);
    assert_eq!(
        version_groups(2001),
        vec![
            VersionGroup { group_no: 1, from: 0, to: 1000 },
            VersionGroup { group_no: 2, from: 1000, to: 2000 },
            VersionGroup { group_no: 3, from: 2000, to: 2001 },
        ]
    );
}
