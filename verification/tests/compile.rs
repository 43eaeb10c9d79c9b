use crates_io::baseline::{BaselineCheck, BaselineStep};
use crates_io::crate_run::{
    has_no_dependencies, precompile_milestone, CrateEvent, CrateRun, CrateStep,
};
use crates_io::deps::{self, DepType, DependencyInfo, IndexDepsByKind};
use crates_io::experiment::{update_error, ExperimentAction, ExperimentEvent, ExperimentRun};
use crates_io::failures::Failures;
use crates_io::json::{self, Json};
use crates_io::project::{
    cargo_build_args, cargo_build_env, cargo_update_args, cargo_update_env, BuildTask, Permit,
    ProjectAction, ProjectFile, Reply, RestoreStep, Stage, UpdateStep, VerifyStep,
    CARGO_CMD_TIMEOUT_SECS,
};
use crates_io::project::Reply::{Error, No, Yes};
use crates_io::records::Milestone;
use std::collections::BTreeMap;

fn doc(text: &str) -> Json {
    json::parse_json(text).unwrap()
}

fn deps_of(text: &str) -> IndexDepsByKind {
    deps::collect_deps_by_kind_from_index_deps(&doc(text))
}

fn dep(name: &str, dep_type: DepType, req: &str) -> DependencyInfo {
    DependencyInfo { name: name.to_string(), dep_type, req: req.to_string() }
}

fn list(versions: &[&str]) -> ExperimentEvent {
    ExperimentEvent::Versions(Some(versions.iter().map(|v| v.to_string()).collect()))
}

#[test]
fn dependencies_are_sorted_by_kind() {
    let found = deps_of(
        r#"[{"name":"d1","req":"^1","kind":"dev"},{"name":"n1"},{"name":"b1","req":"^2","kind":"build"},{"name":""},{"req":"^1"},{"name":"n2","kind":"other"},{"name":"d2","kind":"development"},{"name":"n3","kind":"normal"}]"#,
    );
    let names = |list: &Vec<DependencyInfo>| -> Vec<String> {
        list.iter().map(|d| d.name.clone()).collect()
    };
    assert_eq!(names(&found.normal), vec!["n1", "n2", "n3"]);
    assert_eq!(names(&found.build), vec!["b1"]);
    assert_eq!(names(&found.dev), vec!["d1", "d2"]);
    assert_eq!(found.normal[0].req, "");
    assert_eq!(names(&deps::flatten_index_deps(&found)), vec!["n1", "n2", "n3", "b1", "d1", "d2"]);
    let none = deps_of(r#"{"name":"a"}"#);
    assert!(deps::flatten_index_deps(&none).is_empty());
}

#[test]
fn kinds_have_labels() {
    assert_eq!(deps::dep_type_to_str(&DepType::Normal), "normal");
    assert_eq!(deps::dep_type_to_str(&DepType::Dev), "dev");
    assert_eq!(deps::dep_type_to_str(&DepType::Build), "build");
}

#[test]
fn cargo_commands_have_their_arguments() {
    assert_eq!(cargo_build_args(BuildTask::Build).join(" "), "+1.95.0 build");
    assert_eq!(cargo_build_args(BuildTask::BuildLocked).join(" "), "+1.95.0 build --locked");
    assert_eq!(cargo_build_args(BuildTask::Test).join(" "), "+1.95.0 test --no-run --locked");
    assert_eq!(cargo_build_args(BuildTask::Bench).join(" "), "+1.95.0 bench --no-run --locked");
    assert_eq!(
        cargo_update_args("log", "0.4.1").join(" "),
        "+1.95.0 update -p log --precise 0.4.1"
    );
    let env = cargo_build_env("/h", "/t");
    let shown: Vec<String> = env.iter().map(|(k, v)| format!("{}={}", k, v)).collect();
    assert_eq!(
        shown,
        vec!["CARGO_HOME=/h", "CARGO_TARGET_DIR=/t", "CARGO_INCREMENTAL=0", "CARGO_BUILD_JOBS=5"]
    );
    assert_eq!(cargo_update_env("/h"), vec![("CARGO_HOME".to_string(), "/h".to_string())]);
    assert_eq!(CARGO_CMD_TIMEOUT_SECS, 60 * 20);
}

#[test]
fn stages_and_files_have_names() {
    assert_eq!(Stage::BaselineBuild.spawned_stage(), "baseline_build_spawned");
    assert_eq!(Stage::VerifyBench.timeout_stage(), "verify_bench_timeout");
    assert_eq!(Stage::DepUpdate.timeout_error(), "cargo_timeout:dep_update_timeout");
    assert_eq!(Stage::VerifyTest.label(), "verify_test");
    assert_eq!(Permit::BaselineBuildInit.label(), "baseline_build_init");
    assert_eq!(Permit::CargoUpdate.label(), "cargo_update");
    assert_eq!(ProjectFile::Manifest.file_name(), "Cargo.toml");
    assert_eq!(ProjectFile::LockBaseline.file_name(), "Cargo.lock.baseline");
}

fn verify(dep_type: DepType, replies: &[Reply]) -> Vec<ProjectAction> {
    let mut step = VerifyStep::start(&dep_type);
    let mut actions = vec![step.action()];
    for reply in replies {
        step = step.next(*reply);
        actions.push(step.action());
    }
    actions
}

#[test]
fn update_of_a_normal_dependency_is_verified_by_a_build() {
    assert_eq!(
        verify(DepType::Normal, &[Reply::Yes, Reply::No]),
        vec![
            ProjectAction::Acquire(Permit::VerifyBuild),
            ProjectAction::Run(BuildTask::BuildLocked, Stage::VerifyBuild),
            ProjectAction::Finish(false),
        ]
    );
    let ok = verify(DepType::Build, &[Reply::Yes, Reply::Yes]);
    assert_eq!(ok[2], ProjectAction::Finish(true));
    let cut = verify(DepType::Build, &[Reply::Yes, Reply::Error]);
    assert_eq!(cut[2], ProjectAction::Abort);
}

#[test]
fn update_of_a_dev_dependency_is_verified_by_tests_and_benches() {
    assert_eq!(
        verify(DepType::Dev, &[Reply::Yes, Reply::Yes, Reply::Yes]),
        vec![
            ProjectAction::Acquire(Permit::VerifyDev),
            ProjectAction::Run(BuildTask::Test, Stage::VerifyTest),
            ProjectAction::Run(BuildTask::Bench, Stage::VerifyBench),
            ProjectAction::Finish(true),
        ]
    );
    let failed = verify(DepType::Dev, &[Reply::Yes, Reply::No]);
    assert_eq!(failed[2], ProjectAction::Finish(false));
}

#[test]
fn dependency_is_moved_with_the_right_to_run_cargo() {
    let start = UpdateStep::TakePermit;
    assert_eq!(start.action(), ProjectAction::Acquire(Permit::CargoUpdate));
    let update = start.next(Reply::Yes);
    assert_eq!(update.action(), ProjectAction::Update);
    assert_eq!(update.next(Reply::Yes).action(), ProjectAction::Finish(true));
    assert_eq!(update.next(Reply::No).action(), ProjectAction::Finish(false));
    assert_eq!(update.next(Reply::Error).action(), ProjectAction::Abort);
    assert_eq!(start.next(Reply::Error).action(), ProjectAction::Abort);
}

#[test]
fn baseline_files_are_put_back_where_they_are_there() {
    let mut step = RestoreStep::FindManifest;
    let mut actions = vec![step.action()];
    for reply in [Reply::Yes, Reply::Yes, Reply::No] {
        step = step.next(reply);
        actions.push(step.action());
    }
    assert_eq!(
        actions,
        vec![
            ProjectAction::Exists(ProjectFile::ManifestBaseline),
            ProjectAction::Copy(ProjectFile::ManifestBaseline, ProjectFile::Manifest),
            ProjectAction::Exists(ProjectFile::LockBaseline),
            ProjectAction::Finish(true),
        ]
    );
    assert_eq!(RestoreStep::CopyLock.next(Reply::Error).action(), ProjectAction::Abort);
}

fn check(deps: &str, replies: &[Reply]) -> Vec<ProjectAction> {
    let mut state = BaselineCheck::start(&deps_of(deps));
    let mut actions = vec![state.action()];
    for reply in replies {
        state = state.next(*reply);
        actions.push(state.action());
    }
    actions
}

#[test]
fn baseline_of_a_crate_with_a_lock_file() {
    let actions = check(
        r#"[{"name":"a"},{"name":"b","kind":"dev"}]"#,
        &[Yes, No, Yes, Yes, No, Yes, Yes, Yes, Yes, Yes, Yes, Yes, No, Yes],
    );
    assert_eq!(
        actions,
        vec![
            ProjectAction::Exists(ProjectFile::Manifest),
            ProjectAction::Exists(ProjectFile::LockBaseline),
            ProjectAction::Exists(ProjectFile::Lock),
            ProjectAction::RecordLock(1),
            ProjectAction::Exists(ProjectFile::LockBaseline),
            ProjectAction::Exists(ProjectFile::Lock),
            ProjectAction::Copy(ProjectFile::Lock, ProjectFile::LockBaseline),
            ProjectAction::Acquire(Permit::BaselineBuild),
            ProjectAction::Run(BuildTask::BuildLocked, Stage::BaselineBuild),
            ProjectAction::Acquire(Permit::BaselineTest),
            ProjectAction::Run(BuildTask::Test, Stage::BaselineTest),
            ProjectAction::Run(BuildTask::Bench, Stage::BaselineBench),
            ProjectAction::Exists(ProjectFile::ManifestBaseline),
            ProjectAction::Copy(ProjectFile::Manifest, ProjectFile::ManifestBaseline),
            ProjectAction::Finish(true),
        ]
    );
}

#[test]
fn baseline_of_a_crate_without_a_lock_file() {
    let actions = check(
        r#"[{"name":"a","kind":"build"}]"#,
        &[Yes, Yes, No, Yes, Yes, No, Yes, Yes, Yes, Yes, Yes, Yes, Yes],
    );
    assert_eq!(
        actions,
        vec![
            ProjectAction::Exists(ProjectFile::Manifest),
            ProjectAction::Exists(ProjectFile::LockBaseline),
            ProjectAction::Exists(ProjectFile::Lock),
            ProjectAction::Exists(ProjectFile::LockBaseline),
            ProjectAction::Remove(ProjectFile::LockBaseline),
            ProjectAction::Exists(ProjectFile::Lock),
            ProjectAction::Acquire(Permit::BaselineBuildInit),
            ProjectAction::Run(BuildTask::Build, Stage::BaselineBuild),
            ProjectAction::Exists(ProjectFile::Lock),
            ProjectAction::Copy(ProjectFile::Lock, ProjectFile::LockBaseline),
            ProjectAction::Exists(ProjectFile::ManifestBaseline),
            ProjectAction::Remove(ProjectFile::ManifestBaseline),
            ProjectAction::Copy(ProjectFile::Manifest, ProjectFile::ManifestBaseline),
            ProjectAction::Finish(true),
        ]
    );
}

#[test]
fn baseline_fails_where_the_crate_does_not_compile() {
    let missing = check("[]", &[No]);
    assert_eq!(missing[1], ProjectAction::Finish(false));
    let unlocked = check("[]", &[Yes, No, No, Yes]);
    assert_eq!(unlocked[3], ProjectAction::RecordLock(2));
    assert_eq!(unlocked[4], ProjectAction::Finish(true));
    let unrecorded = check("[]", &[Yes, No, No, Error]);
    assert_eq!(unrecorded[4], ProjectAction::Abort);
    let timed_out = check(r#"[{"name":"a"}]"#, &[Yes, Yes, Yes, No, Yes, Yes, Yes, Error]);
    assert_eq!(timed_out[8], ProjectAction::Finish(false));
    let state = BaselineCheck {
        step: BaselineStep::FindFreshLock,
        need_build: true,
        need_dev: false,
        had_baseline: false,
    };
    assert_eq!(state.next(No).action(), ProjectAction::Finish(false));
}

#[test]
fn failures_are_listed_by_dependency() {
    let mut failures = Failures::new();
    failures.record(&dep("a", DepType::Dev, "^1"), "1.2.0");
    failures.record(&dep("b", DepType::Build, "^2"), "2.2.0");
    failures.record(&dep("a", DepType::Normal, "^9"), "1.2.0");
    failures.record(&dep("a", DepType::Normal, "^9"), "1.3.0");
    let value = failures.into_value().unwrap();
    let expected: serde_json::Value = serde_json::from_str(
        r#"{"a":{"dep_type":"dev","req":"^1","failed_targets":["1.2.0","1.3.0"]},"b":{"dep_type":"build","req":"^2","failed_targets":["2.2.0"]}}"#,
    )
    .unwrap();
    assert_eq!(value, expected);
    assert!(Failures::new().into_value().is_none());
}

#[test]
fn update_that_breaks_the_crate_is_recorded() {
    let deps = deps_of(r#"[{"name":"bad","req":"x y"},{"name":"a","req":"^1"},{"name":"b","req":"^2","kind":"dev"}]"#);
    let run = ExperimentRun::start(&deps);
    assert!(matches!(run.action(), ExperimentAction::AskDatabase(name) if name == "a"));
    let run = run.next(ExperimentEvent::Versions(None));
    assert!(matches!(run.action(), ExperimentAction::AskRegistry(name) if name == "a"));
    let run = run.next(list(&["1.0.0", "1.4.0", "2.0.0"]));
    assert!(matches!(run.action(), ExperimentAction::Restore));
    let run = run.next(ExperimentEvent::Went(Reply::Yes));
    assert!(matches!(run.action(), ExperimentAction::Update(n, v) if n == "a" && v == "1.4.0"));
    let run = run.next(ExperimentEvent::Went(Reply::Yes));
    assert!(matches!(run.action(), ExperimentAction::Verify(DepType::Normal)));
    let run = run.next(ExperimentEvent::Went(Reply::No));
    assert!(matches!(run.action(), ExperimentAction::AskDatabase(name) if name == "b"));
    let run = run.next(list(&["2.1.0"]));
    let run = run.next(ExperimentEvent::Went(Reply::Yes));
    let run = run.next(ExperimentEvent::Went(Reply::Yes));
    assert!(matches!(run.action(), ExperimentAction::Verify(DepType::Dev)));
    let run = run.next(ExperimentEvent::Went(Reply::Yes));
    assert!(matches!(run.action(), ExperimentAction::Finish));
    let expected: serde_json::Value = serde_json::from_str(
        r#"{"a":{"dep_type":"normal","req":"^1","failed_targets":["1.4.0"]}}"#,
    )
    .unwrap();
    assert_eq!(run.into_errors(), Some(expected));
}

#[test]
fn dependency_that_cannot_be_tried_is_passed_over() {
    let deps = deps_of(
        r#"[{"name":"a","req":"^1"},{"name":"b","req":"^1"},{"name":"c","req":"^1"},{"name":"d","req":"^1"}]"#,
    );
    let run = ExperimentRun::start(&deps).next(ExperimentEvent::QueryFailed);
    let run = run.next(list(&["2.0.0"]));
    let run = run.next(ExperimentEvent::Versions(None)).next(ExperimentEvent::QueryFailed);
    let run = run.next(list(&["1.0.0"])).next(ExperimentEvent::Went(Reply::Yes));
    assert!(matches!(run.action(), ExperimentAction::Update(n, _) if n == "d"));
    let run = run.next(ExperimentEvent::Went(Reply::No));
    assert!(matches!(run.action(), ExperimentAction::Finish));
    assert_eq!(run.into_errors(), None);
}

#[test]
fn experiments_end_where_a_step_cannot_be_carried_out() {
    let deps = deps_of(r#"[{"name":"a","req":"^1"}]"#);
    let restore = ExperimentRun::start(&deps).next(list(&["1.0.0"]));
    let run = restore.next(ExperimentEvent::Went(Reply::Error));
    assert!(matches!(run.action(), ExperimentAction::Abort));
    let update = ExperimentRun::start(&deps).next(list(&["1.0.0"])).next(ExperimentEvent::Went(Reply::Yes));
    let run = update.next(ExperimentEvent::Went(Reply::Error));
    assert!(matches!(run.action(), ExperimentAction::Abort));
    assert!(matches!(
        ExperimentRun::start(&deps_of("[]")).action(),
        ExperimentAction::Finish
    ));
    assert_eq!(update_error("a", "1.0.0"), "cargo update -p a --precise 1.0.0 failed to execute");
}

#[test]
fn crate_goes_from_its_index_entry_to_its_result() {
    let run = CrateRun::start();
    assert_eq!(run.step(), CrateStep::FindDirectory);
    let run = run.next(CrateEvent::Went(Reply::Yes));
    assert_eq!(run.step(), CrateStep::LoadDependencies);
    let run = run.next(CrateEvent::Dependencies(Some(doc(r#"[{"name":"a","req":"^1"}]"#))));
    assert_eq!(run.step(), CrateStep::CheckBaseline);
    assert_eq!(run.deps().normal.len(), 1);
    let run = run.next(CrateEvent::Went(Reply::Yes));
    assert_eq!(run.step(), CrateStep::RunExperiments);
    let run = run.next(CrateEvent::Went(Reply::Yes));
    assert_eq!(run.step(), CrateStep::RecordResult);
    assert_eq!(run.next(CrateEvent::Went(Reply::Yes)).step(), CrateStep::Finished);
}

fn loaded(deps: Option<Json>) -> CrateRun {
    CrateRun::start().next(CrateEvent::Went(Reply::Yes)).next(CrateEvent::Dependencies(deps))
}

fn many(n: usize) -> Json {
    doc(&format!("[{}]", vec![r#"{"name":"a","req":"^1"}"#; n].join(",")))
}

#[test]
fn crate_is_skipped_by_its_dependencies() {
    assert_eq!(loaded(None).step(), CrateStep::Finished);
    assert_eq!(loaded(Some(doc("[]"))).step(), CrateStep::Finished);
    assert_eq!(loaded(Some(many(50))).step(), CrateStep::CheckBaseline);
    assert_eq!(loaded(Some(many(51))).step(), CrateStep::MarkHeavyDepsSkipped(51));
    assert!(has_no_dependencies(&doc(r#"[{"req":"^1"}]"#)));
    assert!(!has_no_dependencies(&many(1)));
}

#[test]
fn crate_that_does_not_compile_is_marked() {
    let run = loaded(Some(many(1))).next(CrateEvent::Went(Reply::No));
    assert_eq!(run.step(), CrateStep::MarkInitialCompileFailed);
    assert_eq!(run.next(CrateEvent::Went(Reply::Yes)).step(), CrateStep::Finished);
    let run = loaded(Some(many(1))).next(CrateEvent::Went(Reply::Error));
    assert_eq!(run.step(), CrateStep::Failed);
    let run = CrateRun::start().next(CrateEvent::Went(Reply::No));
    assert_eq!(run.step(), CrateStep::NoDirectory);
}

#[test]
fn documents_are_copied() {
    let original = doc(r#"{"a":[1,"x",null,true,{"b":2.5}]}"#);
    let copy = original.copy();
    assert_eq!(format!("{:?}", copy), format!("{:?}", original));
    let value: serde_json::Value = serde_json::from_str(r#"{"k":[false]}"#).unwrap();
    let read = json::json_of(&value);
    assert_eq!(read.get("k").unwrap().as_array().unwrap()[0].as_bool(), Some(false));
    assert!(json::parse_json("{").is_err());
}

#[test]
fn crate_without_dependencies_counts_as_handled_ahead() {
    assert!(matches!(precompile_milestone(Some(&doc("[]"))), Some(Milestone::CompileHandled)));
    assert!(matches!(precompile_milestone(Some(&doc("{}"))), Some(Milestone::CompileHandled)));
    assert!(precompile_milestone(Some(&many(1))).is_none());
    assert!(precompile_milestone(None).is_none());
}

type Directory = BTreeMap<&'static str, String>;

fn carry_out(files: &mut Directory, action: ProjectAction) -> Reply {
    match action {
        ProjectAction::Exists(file) => {
            if files.contains_key(file.file_name()) {
                Yes
            } else {
                No
            }
        }
        ProjectAction::Remove(file) => {
            files.remove(file.file_name());
            Yes
        }
        ProjectAction::Copy(from, to) => match files.get(from.file_name()).cloned() {
            Some(content) => {
                files.insert(to.file_name(), content);
                Yes
            }
            None => Error,
        },
        ProjectAction::Run(BuildTask::Build, _) | ProjectAction::Update => {
            files.insert("Cargo.lock", "written by cargo".to_string());
            Yes
        }
        _ => Yes,
    }
}

fn pass_check(files: &mut Directory) {
    let mut check = BaselineCheck::start(&deps_of(r#"[{"name":"a"},{"name":"b","kind":"dev"}]"#));
    while !matches!(check.action(), ProjectAction::Finish(_) | ProjectAction::Abort) {
        let reply = carry_out(files, check.action());
        check = check.next(reply);
    }
    assert_eq!(check.action(), ProjectAction::Finish(true));
}

#[test]
fn passed_check_keeps_manifest_and_lock_file() {
    for lock in [None, Some("published")] {
        let mut files: Directory = BTreeMap::new();
        files.insert("Cargo.toml", "manifest".to_string());
        files.insert("Cargo.lock.baseline", "stale".to_string());
        if let Some(content) = lock {
            files.insert("Cargo.lock", content.to_string());
        }
        pass_check(&mut files);
        assert_eq!(files["Cargo.toml.baseline"], "manifest");
        assert_eq!(files["Cargo.toml"], "manifest");
        assert_eq!(files["Cargo.lock.baseline"], lock.unwrap_or("written by cargo"));
        assert_eq!(files["Cargo.lock"], files["Cargo.lock.baseline"]);
    }
}

#[test]
fn files_are_put_back_after_an_update() {
    let mut files: Directory = BTreeMap::new();
    files.insert("Cargo.toml", "manifest".to_string());
    files.insert("Cargo.lock", "published".to_string());
    pass_check(&mut files);
    let before = files.clone();
    carry_out(&mut files, ProjectAction::Update);
    assert_ne!(files, before);
    let mut step = RestoreStep::FindManifest;
    while !matches!(step.action(), ProjectAction::Finish(_) | ProjectAction::Abort) {
        let reply = carry_out(&mut files, step.action());
        step = step.next(reply);
    }
    assert_eq!(step.action(), ProjectAction::Finish(true));
    assert_eq!(files, before);
}
