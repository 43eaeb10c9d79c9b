use crates_io::project::Reply;
use crates_io::workers::{
    cargo_cache_dirs, experiment_dir, worker_cargo_home, worker_dir_name, worker_target_dir,
    CompileItem, Producer, ProducerEvent, ProducerStep, Worker, WorkerStep, COMPILE_BATCH_SIZE,
    COMPILE_CONCURRENCY,
};

fn item(id: i32) -> CompileItem {
    CompileItem { id, name: format!("c{}", id), version_new: "1.0.0".to_string() }
}

#[test]
fn producer_hands_out_page_after_page() {
    let producer = Producer::start();
    assert_eq!(producer.step(), ProducerStep::Fetch);
    assert_eq!(producer.after_id(), 0);
    let producer = producer.next(ProducerEvent::Page(vec![item(3), item(5)]));
    assert_eq!(producer.item().unwrap().id, 3);
    let producer = producer.next(ProducerEvent::Sent);
    assert_eq!(producer.after_id(), 3);
    assert_eq!(producer.item().unwrap().name, "c5");
    let producer = producer.next(ProducerEvent::Sent);
    assert_eq!(producer.step(), ProducerStep::Fetch);
    assert_eq!(producer.after_id(), 5);
    assert!(producer.item().is_none());
    let producer = producer.next(ProducerEvent::Page(vec![]));
    assert_eq!(producer.step(), ProducerStep::Finished);
}

#[test]
fn producer_stops_when_nobody_takes_crates_or_a_page_fails() {
    let closed = Producer::start()
        .next(ProducerEvent::Page(vec![item(1), item(2)]))
        .next(ProducerEvent::Closed);
    assert_eq!(closed.step(), ProducerStep::Finished);
    let failed = Producer::start().next(ProducerEvent::PageFailed);
    assert_eq!(failed.step(), ProducerStep::Failed);
    assert_eq!(COMPILE_BATCH_SIZE, 2000);
    assert_eq!(COMPILE_CONCURRENCY, 10);
}

#[test]
fn worker_marks_every_crate_and_clears_its_home_now_and_then() {
    let mut worker = Worker::start();
    let mut cleared = Vec::new();
    for n in 1..=45u64 {
        assert_eq!(worker.step, WorkerStep::Receive);
        worker = worker.next(Reply::Yes);
        assert_eq!(worker.step, WorkerStep::Process);
        worker = worker.next(if n % 2 == 0 { Reply::Error } else { Reply::Yes });
        assert_eq!(worker.step, WorkerStep::CleanTarget);
        worker = worker.next(match n % 3 {
            0 => Reply::No,
            1 => Reply::Yes,
            _ => Reply::Error,
        });
        assert_eq!(worker.step, WorkerStep::MarkHandled);
        worker = worker.next(Reply::Error);
        assert_eq!(worker.handled, n);
        if worker.step == WorkerStep::CleanHome {
            cleared.push(n);
            worker = worker.next(Reply::Yes);
        }
    }
    assert_eq!(cleared, vec![20, 40]);
    worker = worker.next(Reply::No);
    assert_eq!(worker.step, WorkerStep::CleanHomeAtEnd);
    assert_eq!(worker.next(Reply::Yes).step, WorkerStep::Finished);
}

#[test]
fn workers_have_directories_of_their_own() {
    assert_eq!(worker_dir_name(0), "worker_00");
    assert_eq!(worker_dir_name(9), "worker_09");
    assert_eq!(worker_dir_name(10), "worker_10");
    assert_eq!(worker_dir_name(123), format!("worker_{:02}", 123));
    assert_eq!(experiment_dir("/h"), "/h/cratesio-experiment");
    let dirs: Vec<String> = cargo_cache_dirs().iter().map(|d| d.join("/")).collect();
    assert_eq!(dirs, vec!["registry/cache", "registry/src", "git/checkouts"]);
}

#[test]
fn worker_directories_are_joined_as_paths_are() {
    for base in ["/var/tmp", "/var/tmp/", "rel", "", "/"] {
        let joined = std::path::Path::new(base).join("cratesio-experiment").join("worker_03");
        assert_eq!(worker_cargo_home(base, 3), joined.to_str().unwrap());
        let joined = std::path::Path::new(base).join("worker_12");
        assert_eq!(worker_target_dir(base, 12), joined.to_str().unwrap());
    }
}

#[test]
fn no_two_workers_share_a_directory() {
    for i in 0..COMPILE_CONCURRENCY {
        for j in 0..i {
            assert_ne!(worker_cargo_home("/h", i), worker_cargo_home("/h", j));
            assert_ne!(worker_target_dir("/t", i), worker_target_dir("/t", j));
        }
    }
}

#[test]
fn page_is_handed_out_in_order() {
    let mut producer = Producer::start().next(ProducerEvent::Page((1..=7).map(item).collect()));
    let mut handed = Vec::new();
    while let Some(next) = producer.item() {
        handed.push(next.id);
        producer = producer.next(ProducerEvent::Sent);
    }
    assert_eq!(handed, (1..=7).collect::<Vec<i32>>());
    assert_eq!(producer.step(), ProducerStep::Fetch);
    assert_eq!(producer.after_id(), 7);
}
