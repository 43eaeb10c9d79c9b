use crates_io::records::{
    import_update_columns, rows_to_store, uncompiled_conditions, unfetched_conditions,
    unhandled_version_conditions, version_update_columns, Change, Condition, CrateFlag, CrateText,
    Milestone,
};
use crates_io::schema::{
    version_key, Column, ColumnDefault, ColumnKind, CrateColumn, Migration, Migrator, OnDelete,
    SchemaChange, Table, VersionColumn,
};

fn names(migration: Migration) -> Vec<&'static str> {
    migration.columns().iter().map(|c| c.column.name()).collect()
}

#[test]
fn migrations_are_listed_in_order() {
    let names: Vec<&str> = Migrator::migrations().iter().map(|m| m.name()).collect();
    assert_eq!(
        names,
        vec![
            "m20260425_000001_create_crates_table",
            "m20260425_000002_add_download_retry_fields",
            "m20260426_000003_add_version_handled_to_crates",
            "m20260426_000004_create_crate_versions_index_table",
            "m20260427_000005_add_compile_fields_to_crates",
            "m20260512_000006_add_heavy_deps_skip_fields_to_crates",
        ]
    );
}

#[test]
fn migrations_bring_the_columns() {
    assert_eq!(
        names(Migration::CreateCratesTable).join(" "),
        "id name homepage analyzed download created_at updated_at version_new"
    );
    assert_eq!(names(Migration::AddDownloadRetryFields), vec!["download_failed"]);
    assert_eq!(names(Migration::AddVersionHandledToCrates), vec!["version_handled"]);
    assert_eq!(
        names(Migration::CreateCrateVersionsIndexTable).join(" "),
        "id crate_id version deps features2 pubtime"
    );
    assert_eq!(
        names(Migration::AddCompileFieldsToCrates).join(" "),
        "compile_handled initial_compile_failed cargo_lock_exists dep_update_errors"
    );
    assert_eq!(
        names(Migration::AddHeavyDepsSkipFieldsToCrates).join(" "),
        "heavy_deps_skipped heavy_deps_count"
    );
}

#[test]
fn columns_are_made_as_they_are_used() {
    let crates = Migration::CreateCratesTable.columns();
    assert!(crates[0].primary_key && crates[0].not_null);
    assert_eq!(crates[0].kind, ColumnKind::Integer);
    assert!(!crates[2].not_null);
    assert_eq!(crates[3].default, ColumnDefault::False);
    assert_eq!(crates[5].kind, ColumnKind::Timestamp);
    assert_eq!(crates[5].default, ColumnDefault::Now);
    assert_eq!(crates[7].default, ColumnDefault::EmptyText);
    let compile = Migration::AddCompileFieldsToCrates.columns();
    assert_eq!(compile[2].default, ColumnDefault::Zero);
    assert_eq!(compile[3].kind, ColumnKind::JsonBinary);
    assert!(!compile[3].not_null);
    let versions = Migration::CreateCrateVersionsIndexTable.columns();
    assert!(versions[0].auto_increment);
    assert_eq!(versions[3].kind, ColumnKind::JsonBinary);
    assert_eq!(versions[4].column, Column::Versions(VersionColumn::Features2));
}

#[test]
fn migrations_are_taken_back_by_their_opposite() {
    assert!(matches!(
        Migration::CreateCratesTable.up(),
        SchemaChange::CreateTable(Table::Crates, columns) if columns.len() == 8
    ));
    assert!(matches!(
        Migration::CreateCratesTable.down(),
        SchemaChange::DropTable(Table::Crates)
    ));
    assert!(matches!(
        Migration::CreateCrateVersionsIndexTable.down(),
        SchemaChange::DropTable(Table::CrateVersionsIndex)
    ));
    for migration in [
        Migration::AddDownloadRetryFields,
        Migration::AddVersionHandledToCrates,
        Migration::AddCompileFieldsToCrates,
        Migration::AddHeavyDepsSkipFieldsToCrates,
    ] {
        match (migration.up(), migration.down()) {
            (SchemaChange::AddColumns(a, added), SchemaChange::DropColumns(b, dropped)) => {
                assert_eq!(a, Table::Crates);
                assert_eq!(b, Table::Crates);
                assert_eq!(added, dropped);
                assert!(!added.is_empty());
            }
            _ => panic!("columns are added and dropped"),
        }
    }
    assert_eq!(Table::Crates.name(), "crates");
    assert_eq!(Table::CrateVersionsIndex.name(), "crate_versions_index");
}

#[test]
fn queues_are_asked_for_by_their_conditions() {
    let unfetched = unfetched_conditions();
    assert_eq!(unfetched.len(), 5);
    assert!(matches!(unfetched[0], Condition::FlagIs(CrateFlag::Download, false)));
    assert!(matches!(unfetched[1], Condition::FlagIs(CrateFlag::DownloadFailed, false)));
    assert!(matches!(unfetched[2], Condition::NotNull(CrateText::VersionNew)));
    assert!(matches!(unfetched[3], Condition::TextIsNot(CrateText::VersionNew, "yanked")));
    assert!(matches!(unfetched[4], Condition::TextIsNot(CrateText::VersionNew, "")));
    let unhandled = unhandled_version_conditions();
    assert_eq!(unhandled.len(), 3);
    assert!(matches!(unhandled[0], Condition::FlagIs(CrateFlag::VersionHandled, false)));
    assert!(matches!(unhandled[1], Condition::FlagIs(CrateFlag::DownloadFailed, false)));
    assert!(matches!(unhandled[2], Condition::TextIsNot(CrateText::Name, "")));
    let uncompiled = uncompiled_conditions(7);
    assert_eq!(uncompiled.len(), 2);
    assert!(matches!(uncompiled[0], Condition::FlagIs(CrateFlag::CompileHandled, false)));
    assert!(matches!(uncompiled[1], Condition::IdAbove(7)));
}

#[test]
fn milestones_are_stored() {
    let downloaded = Milestone::Downloaded.changes();
    assert_eq!(downloaded.len(), 2);
    assert!(matches!(downloaded[0], Change::SetFlag(CrateFlag::Download, true)));
    assert!(matches!(downloaded[1], Change::SetFlag(CrateFlag::DownloadFailed, false)));
    let failed = Milestone::DownloadFailed.changes();
    assert_eq!(failed.len(), 1);
    assert!(matches!(failed[0], Change::SetFlag(CrateFlag::DownloadFailed, true)));
    let handled = Milestone::VersionHandled.changes();
    assert!(matches!(handled[0], Change::SetFlag(CrateFlag::VersionHandled, true)));
    let compiled = Milestone::CompileHandled.changes();
    assert!(matches!(compiled[0], Change::SetFlag(CrateFlag::CompileHandled, true)));
    let broken = Milestone::InitialCompileFailed.changes();
    assert!(matches!(broken[0], Change::SetFlag(CrateFlag::InitialCompileFailed, true)));
    let heavy = Milestone::HeavyDepsSkipped(51).changes();
    assert!(matches!(heavy[0], Change::SetFlag(CrateFlag::HeavyDepsSkipped, true)));
    assert!(matches!(heavy[1], Change::SetHeavyDepsCount(51)));
    let lock = Milestone::CargoLockSeen(2).changes();
    assert!(matches!(lock[0], Change::SetCargoLockExists(2)));
}

#[test]
fn flags_and_texts_have_their_columns() {
    assert_eq!(CrateFlag::Analyzed.column(), CrateColumn::Analyzed);
    assert_eq!(CrateFlag::HeavyDepsSkipped.column().name(), "heavy_deps_skipped");
    assert_eq!(CrateText::Name.column(), CrateColumn::Name);
    assert_eq!(CrateText::VersionNew.column().name(), "version_new");
}

#[test]
fn new_import_keeps_what_is_not_in_the_crate_list() {
    let columns = import_update_columns();
    assert_eq!(columns.len(), 8);
    assert!(columns.contains(&CrateColumn::Download));
    assert!(!columns.contains(&CrateColumn::VersionHandled));
    assert!(!columns.contains(&CrateColumn::CompileHandled));
    assert!(!columns.contains(&CrateColumn::Id));
}

#[test]
fn versions_are_replaced_by_crate_and_version() {
    assert_eq!(version_key(), vec![VersionColumn::CrateId, VersionColumn::Version]);
    assert_eq!(
        version_update_columns(),
        vec![VersionColumn::Deps, VersionColumn::Features2, VersionColumn::Pubtime]
    );
}

#[test]
fn only_the_versions_table_has_keys() {
    for migration in Migrator::migrations() {
        let expected = migration == Migration::CreateCrateVersionsIndexTable;
        assert_eq!(migration.keys().is_some(), expected);
    }
    let keys = Migration::CreateCrateVersionsIndexTable.keys().unwrap();
    assert_eq!(keys.unique, version_key());
    assert_eq!(keys.unique_name, "idx_crate_versions_index_crate_version_unique");
    assert_eq!(keys.reference.name, "fk_crate_versions_index_crate_id");
    assert_eq!(keys.reference.from, VersionColumn::CrateId);
    assert_eq!(keys.reference.to_table, Table::Crates);
    assert_eq!(keys.reference.to, CrateColumn::Id);
    assert_eq!(keys.reference.on_delete, OnDelete::Cascade);
}

#[test]
fn empty_batch_is_not_sent() {
    assert_eq!(rows_to_store(0), None);
    assert_eq!(rows_to_store(3), Some(3));
}
